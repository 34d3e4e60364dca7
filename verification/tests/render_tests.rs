use todomvc::model::{Entry, SessionState, Todo};
use todomvc::render::{render_item, render_items, render_number, render_page};

fn item_html(id: usize, content: &str, status: &str) -> String {
    format!(
        "<div id=\"todo-{id}\" class=\"w-full\"><hr class=\"w-full\"/>\
         <div class=\"flex flex-row justify-between w-full text-xl\">\
         <p>{content}</p><p>{status}</p>\
         <button hx-put=\"todos/{id}\" hx-target=\"#todo-{id}\" hx-swap=\"outerHTML\">Mark as done</button>\
         <button hx-delete=\"todos/{id}\" hx-target=\"#todo-{id}\" hx-swap=\"delete\">Delete</button>\
         </div></div>"
    )
    .replace("         ", "")
}

const PAGE_HEAD: &str = "<head><script src=\"https://unpkg.com/htmx.org@1.9.10\"></script><script src=\"https://cdn.tailwindcss.com\"></script></head><body class=\"w-1/2 m-auto\"><h1 class=\"text-3xl\">TodoMVC</h1><select name=\"sort\" hx-trigger=\"change\" hx-get=\"/todos\" hx-target=\"#todos\"><option select=\"selected\" value=\"all\">All</option><option value=\"done\">Done</option><option value=\"not done\">Not done</option></select><div class=\"flex flex-col\" id=\"todos\">";

const PAGE_TAIL: &str = "</div><hr class=\"w-full\"/><form hx-post=\"/todos\" hx-target=\"#todos\" hx-swap=\"beforeend\"><input type=\"text\" name=\"content\"/><button class=\"bg-teal-200 rounded-md p-2\" type=\"submit\">Add new</button></form></body>";

#[test]
fn numbers_render_as_decimal_digits() {
    assert_eq!(render_number(0), "0");
    assert_eq!(render_number(7), "7");
    assert_eq!(render_number(10), "10");
    assert_eq!(render_number(42), "42");
    assert_eq!(render_number(90210), "90210");
    assert_eq!(render_number(usize::MAX), usize::MAX.to_string());
}

#[test]
fn item_renders_with_stable_element_id_and_status() {
    let not_done = Todo { content: String::from("Buy milk"), done: false };
    assert_eq!(render_item(1, &not_done), item_html(1, "Buy milk", "not done"));

    let done = Todo { content: String::from("Buy milk"), done: true };
    assert_eq!(render_item(12, &done), item_html(12, "Buy milk", "done"));
}

#[test]
fn item_list_renders_in_the_order_given() {
    let items = vec![
        Entry { id: 0, todo: Todo { content: String::from("A faire"), done: false } },
        Entry { id: 1, todo: Todo { content: String::from("Buy milk"), done: true } },
    ];
    let expected = format!(
        "{}{}",
        item_html(0, "A faire", "not done"),
        item_html(1, "Buy milk", "done"),
    );
    assert_eq!(render_items(&items), expected);

    let empty: Vec<Entry> = Vec::new();
    assert_eq!(render_items(&empty), "");
}

#[test]
fn page_wraps_the_items_in_the_chrome() {
    let s = SessionState::seeded();
    let expected = format!("{}{}{}", PAGE_HEAD, item_html(0, "A faire", "not done"), PAGE_TAIL);
    assert_eq!(render_page(&s.todos.entries), expected);
}
