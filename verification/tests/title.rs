use ownership_basics::title::{borrow_title, keep_title, title_report};

#[test]
fn a_title_is_announced() {
    let book_title: String = String::from("Rust Programming");
    assert_eq!(borrow_title(&book_title), "This is my book title: Rust Programming");
}

#[test]
fn a_lent_title_stays_with_its_owner() {
    let book_title: String = String::from("Rust Programming");
    let line: String = borrow_title(&book_title);
    assert_eq!(book_title.as_bytes(), "Rust Programming".as_bytes());
    assert_eq!(borrow_title(&book_title), line);
    assert_eq!(keep_title(&book_title), "I still own the book Rust Programming");
}

#[test]
fn a_title_is_announced_as_it_stands() {
    let book_title: String = String::from("\"Quoted\"\tand\nbroken \u{1f4d6}");
    assert_eq!(borrow_title(&book_title), format!("This is my book title: {}", book_title));
    assert_eq!(keep_title(&book_title), format!("I still own the book {}", book_title));
}

#[test]
fn the_empty_title_is_announced() {
    assert_eq!(borrow_title(&String::new()), "This is my book title: ");
}

#[test]
fn the_report_of_a_title() {
    let lines: Vec<String> = title_report(String::from("Rust Programming"));
    assert_eq!(
        lines,
        vec![
            String::from("This is my book title: Rust Programming"),
            String::from("I still own the book Rust Programming"),
        ]
    );
}
