use vstd::prelude::*;

use crate::model::{Entry, EntryView, Todo, entries_view};

verus! {

/// The decimal digit character for a value below ten.
pub open spec fn spec_digit(d: nat) -> char {
    if d == 0 {
        '0'
    } else if d == 1 {
        '1'
    } else if d == 2 {
        '2'
    } else if d == 3 {
        '3'
    } else if d == 4 {
        '4'
    } else if d == 5 {
        '5'
    } else if d == 6 {
        '6'
    } else if d == 7 {
        '7'
    } else if d == 8 {
        '8'
    } else {
        '9'
    }
}

/// The decimal digits of a number, most significant first, no leading zeros
/// (zero itself is the single digit `0`).
pub open spec fn spec_decimal(n: nat) -> Seq<char>
    decreases n,
{
    if n < 10 {
        seq![spec_digit(n)]
    } else {
        spec_decimal(n / 10) + seq![spec_digit(n % 10)]
    }
}

/// The one-character string for a decimal digit.
fn digit_str(d: usize) -> (r: &'static str)
    requires
        d < 10,
    ensures
        r@ == seq![spec_digit(d as nat)],
{
    if d == 0 {
        proof {
            reveal_strlit("0");
            assert("0"@ =~= seq![spec_digit(d as nat)]);
        }
        "0"
    } else if d == 1 {
        proof {
            reveal_strlit("1");
            assert("1"@ =~= seq![spec_digit(d as nat)]);
        }
        "1"
    } else if d == 2 {
        proof {
            reveal_strlit("2");
            assert("2"@ =~= seq![spec_digit(d as nat)]);
        }
        "2"
    } else if d == 3 {
        proof {
            reveal_strlit("3");
            assert("3"@ =~= seq![spec_digit(d as nat)]);
        }
        "3"
    } else if d == 4 {
        proof {
            reveal_strlit("4");
            assert("4"@ =~= seq![spec_digit(d as nat)]);
        }
        "4"
    } else if d == 5 {
        proof {
            reveal_strlit("5");
            assert("5"@ =~= seq![spec_digit(d as nat)]);
        }
        "5"
    } else if d == 6 {
        proof {
            reveal_strlit("6");
            assert("6"@ =~= seq![spec_digit(d as nat)]);
        }
        "6"
    } else if d == 7 {
        proof {
            reveal_strlit("7");
            assert("7"@ =~= seq![spec_digit(d as nat)]);
        }
        "7"
    } else if d == 8 {
        proof {
            reveal_strlit("8");
            assert("8"@ =~= seq![spec_digit(d as nat)]);
        }
        "8"
    } else {
        proof {
            reveal_strlit("9");
            assert("9"@ =~= seq![spec_digit(d as nat)]);
        }
        "9"
    }
}

/// Renders a number as its decimal digits.
pub fn render_number(n: usize) -> (r: String)
    ensures
        r@ == spec_decimal(n as nat),
    decreases n,
{
    if n < 10 {
        String::from_str(digit_str(n))
    } else {
        let mut s = render_number(n / 10);
        s.append(digit_str(n % 10));
        s
    }
}

/// The human-readable status label of a done flag.
pub open spec fn spec_status(done: bool) -> Seq<char> {
    if done {
        "done"@
    } else {
        "not done"@
    }
}

/// The HTML fragment of one todo item: a container whose element id is
/// derived from the item id, the item's text, its status label, a toggle
/// control that replaces the element, and a delete control that removes it.
pub open spec fn spec_render_item(e: EntryView) -> Seq<char> {
    "<div id=\"todo-"@ + spec_decimal(e.id as nat)
        + "\" class=\"w-full\"><hr class=\"w-full\"/><div class=\"flex flex-row justify-between w-full text-xl\"><p>"@
        + e.todo.content + "</p><p>"@ + spec_status(e.todo.done) + "</p><button hx-put=\"todos/"@
        + spec_decimal(e.id as nat) + "\" hx-target=\"#todo-"@ + spec_decimal(e.id as nat)
        + "\" hx-swap=\"outerHTML\">Mark as done</button><button hx-delete=\"todos/"@
        + spec_decimal(e.id as nat) + "\" hx-target=\"#todo-"@ + spec_decimal(e.id as nat)
        + "\" hx-swap=\"delete\">Delete</button></div></div>"@
}

/// Renders one todo item as its HTML fragment.
pub fn render_item(id: usize, todo: &Todo) -> (r: String)
    ensures
        r@ == spec_render_item(EntryView { id, todo: todo@ }),
{
    let num = render_number(id);
    let status: &str = if todo.done {
        "done"
    } else {
        "not done"
    };
    let mut s = String::from_str("<div id=\"todo-");
    s.append(num.as_str());
    s.append(
        "\" class=\"w-full\"><hr class=\"w-full\"/><div class=\"flex flex-row justify-between w-full text-xl\"><p>",
    );
    s.append(todo.content.as_str());
    s.append("</p><p>");
    s.append(status);
    s.append("</p><button hx-put=\"todos/");
    s.append(num.as_str());
    s.append("\" hx-target=\"#todo-");
    s.append(num.as_str());
    s.append("\" hx-swap=\"outerHTML\">Mark as done</button><button hx-delete=\"todos/");
    s.append(num.as_str());
    s.append("\" hx-target=\"#todo-");
    s.append(num.as_str());
    s.append("\" hx-swap=\"delete\">Delete</button></div></div>");
    s
}

/// The HTML of a list of items: the items' fragments in order, concatenated.
pub open spec fn spec_render_items(items: Seq<EntryView>) -> Seq<char>
    decreases items.len(),
{
    if items.len() == 0 {
        Seq::<char>::empty()
    } else {
        spec_render_items(items.drop_last()) + spec_render_item(items.last())
    }
}

/// Renders a list of items as the concatenation of their fragments, in the
/// order given.
pub fn render_items(items: &Vec<Entry>) -> (r: String)
    ensures
        r@ == spec_render_items(entries_view(items@)),
{
    let mut s = String::new();
    let n = items.len();
    let mut i: usize = 0;
    proof {
        assert(entries_view(items@).take(0) =~= Seq::<EntryView>::empty());
        assert(s@ =~= spec_render_items(entries_view(items@).take(0)));
    }
    while i < n
        invariant
            i <= n,
            n == items@.len(),
            s@ == spec_render_items(entries_view(items@).take(i as int)),
        decreases n - i,
    {
        let frag = render_item(items[i].id, &items[i].todo);
        s.append(frag.as_str());
        proof {
            let v = entries_view(items@);
            assert(v[i as int] == items@[i as int]@);
            assert(v.take(i as int + 1).drop_last() =~= v.take(i as int));
            assert(v.take(i as int + 1).last() == v[i as int]);
        }
        i += 1;
    }
    proof {
        assert(entries_view(items@).take(n as int) =~= entries_view(items@));
    }
    s
}

/// The full list page: the static head and page chrome, the fragments of
/// every current item inside the list container, and the creation form.
pub open spec fn spec_render_page(entries: Seq<EntryView>) -> Seq<char> {
    "<head><script src=\"https://unpkg.com/htmx.org@1.9.10\"></script><script src=\"https://cdn.tailwindcss.com\"></script></head><body class=\"w-1/2 m-auto\"><h1 class=\"text-3xl\">TodoMVC</h1><select name=\"sort\" hx-trigger=\"change\" hx-get=\"/todos\" hx-target=\"#todos\"><option select=\"selected\" value=\"all\">All</option><option value=\"done\">Done</option><option value=\"not done\">Not done</option></select><div class=\"flex flex-col\" id=\"todos\">"@
        + spec_render_items(entries)
        + "</div><hr class=\"w-full\"/><form hx-post=\"/todos\" hx-target=\"#todos\" hx-swap=\"beforeend\"><input type=\"text\" name=\"content\"/><button class=\"bg-teal-200 rounded-md p-2\" type=\"submit\">Add new</button></form></body>"@
}

/// Renders the full list page over the given entries.
pub fn render_page(items: &Vec<Entry>) -> (r: String)
    ensures
        r@ == spec_render_page(entries_view(items@)),
{
    let mut s = String::from_str(
        "<head><script src=\"https://unpkg.com/htmx.org@1.9.10\"></script><script src=\"https://cdn.tailwindcss.com\"></script></head><body class=\"w-1/2 m-auto\"><h1 class=\"text-3xl\">TodoMVC</h1><select name=\"sort\" hx-trigger=\"change\" hx-get=\"/todos\" hx-target=\"#todos\"><option select=\"selected\" value=\"all\">All</option><option value=\"done\">Done</option><option value=\"not done\">Not done</option></select><div class=\"flex flex-col\" id=\"todos\">",
    );
    let body = render_items(items);
    s.append(body.as_str());
    s.append(
        "</div><hr class=\"w-full\"/><form hx-post=\"/todos\" hx-target=\"#todos\" hx-swap=\"beforeend\"><input type=\"text\" name=\"content\"/><button class=\"bg-teal-200 rounded-md p-2\" type=\"submit\">Add new</button></form></body>",
    );
    s
}

} // verus!
