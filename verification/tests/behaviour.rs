use gearrs::error::GsError;
use gearrs::gs_element::GsElement;

fn pair(name: &str, value: &str) -> (String, String) {
    (name.to_string(), value.to_string())
}

#[test]
fn void_set_value_fails_and_keeps_text() {
    let mut input = GsElement::new("input", false);
    assert_eq!(Err(GsError::UnclosedTag), input.set_value("text"));
    assert_eq!("", input.get_value());
    assert_eq!("<input>", input.convert());
}

#[test]
fn void_push_fails_and_keeps_children() {
    let mut input = GsElement::new("input", false);
    assert_eq!(
        Err(GsError::UnclosedTag),
        input.push(&GsElement::new("p", true))
    );
    assert!(input.get_children().is_empty());
    assert_eq!("<input>", input.convert());
}

#[test]
fn void_element_is_the_same_after_refusals() {
    let mut meta = GsElement::new("meta", false).add_attr("charset", "utf-8");
    let before = meta.clone();
    assert!(meta.set_value("a").is_err());
    assert!(meta.push(&GsElement::new("b", true)).is_err());
    assert!(meta.set_value("").is_err());
    assert_eq!(before, meta);
}

#[test]
fn void_add_value_is_silent() {
    let br = GsElement::new("br", false).add_value("text");
    assert_eq!("", br.get_value());
    assert_eq!("<br>", br.convert());
}

#[test]
fn void_add_drops_the_child() {
    let br = GsElement::new("br", false).add(&GsElement::new("p", true));
    assert!(br.get_children().is_empty());
    assert_eq!("<br>", br.convert());
}

#[test]
fn set_value_overwrites() {
    let mut p = GsElement::new("p", true);
    assert_eq!(Ok(()), p.set_value("first"));
    assert_eq!("first", p.get_value());
    assert_eq!(Ok(()), p.set_value("second"));
    assert_eq!("second", p.get_value());
    assert_eq!(Ok(()), p.set_value(""));
    assert_eq!("", p.get_value());
}

#[test]
fn set_value_overwrites_added_text() {
    let mut p = GsElement::new("p", true).add_value("added");
    p.set_value("set").unwrap();
    assert_eq!("set", p.get_value());
}

#[test]
fn add_value_twice_concatenates() {
    let p = GsElement::new("p", true).add_value("a").add_value("b");
    assert_eq!("ab", p.get_value());
    assert_eq!("<p>ab</p>", p.convert());
}

#[test]
fn add_value_appends_to_set_text() {
    let mut p = GsElement::new("p", true);
    p.set_value("Hello").unwrap();
    let p = p.add_value(", ").add_value("world");
    assert_eq!("Hello, world", p.get_value());
}

#[test]
fn add_value_keeps_text_beyond_ascii() {
    let p = GsElement::new("p", true)
        .add_value("Привет мир")
        .add_value("Мир привет");
    assert_eq!("Привет мирМир привет", p.get_value());
}

#[test]
fn fresh_closed_renders_open_and_close() {
    assert_eq!("<div></div>", GsElement::new("div", true).convert());
    assert_eq!("<a></a>", GsElement::new("a", true).convert());
}

#[test]
fn fresh_void_renders_open_only() {
    assert_eq!("<meta>", GsElement::new("meta", false).convert());
    assert_eq!("<br>", GsElement::new("br", false).convert());
}

#[test]
fn fresh_element_holds_nothing() {
    let div = GsElement::new("div", true);
    assert_eq!("div", div.tag);
    assert!(div.is_closed);
    assert_eq!("", div.get_value());
    assert!(div.get_children().is_empty());
    assert!(div.get_attr().is_empty());
}

#[test]
fn tag_is_not_checked() {
    assert_eq!("<></>", GsElement::new("", true).convert());
    assert_eq!("<my tag></my tag>", GsElement::new("my tag", true).convert());
}

#[test]
fn remove_valid_returns_the_child_and_shrinks() {
    let p = GsElement::new("p", true)
        .add_value("text")
        .add_attr("class", "lead");
    let span = GsElement::new("span", true);
    let mut div = GsElement::new("div", true).add(&p).add(&span);

    let removed = div.remove(0);
    assert_eq!(Ok(p), removed);
    assert_eq!(1, div.get_children().len());
    assert_eq!(span, div.get_children()[0]);
}

#[test]
fn remove_middle_keeps_the_order() {
    let mut ul = GsElement::new("ul", true)
        .add(&GsElement::new("li", true).add_value("a"))
        .add(&GsElement::new("li", true).add_value("b"))
        .add(&GsElement::new("li", true).add_value("c"))
        .add(&GsElement::new("li", true).add_value("d"));

    let removed = ul.remove(1).unwrap();
    assert_eq!("b", removed.get_value());
    assert_eq!("<ul><li>a</li><li>c</li><li>d</li></ul>", ul.convert());

    let removed = ul.remove(2).unwrap();
    assert_eq!("d", removed.get_value());
    assert_eq!("<ul><li>a</li><li>c</li></ul>", ul.convert());
}

#[test]
fn remove_invalid_reports_and_keeps_children() {
    let mut div = GsElement::new("div", true)
        .add(&GsElement::new("p", true))
        .add(&GsElement::new("span", true));
    let before = div.clone();

    assert_eq!(Err(GsError::IndexOutOfBounds), div.remove(5));
    assert_eq!(Err(GsError::IndexOutOfBounds), div.remove(usize::MAX));
    assert_eq!(before, div);
    assert_eq!(2, div.get_children().len());
}

#[test]
fn remove_at_the_child_count_is_out_of_bounds() {
    let mut div = GsElement::new("div", true).add(&GsElement::new("p", true));
    assert_eq!(Err(GsError::IndexOutOfBounds), div.remove(1));
    assert!(div.remove(0).is_ok());
    assert_eq!(Err(GsError::IndexOutOfBounds), div.remove(0));
}

#[test]
fn remove_on_void_is_out_of_bounds() {
    let mut br = GsElement::new("br", false);
    assert_eq!(Err(GsError::IndexOutOfBounds), br.remove(0));
}

#[test]
fn repeated_add_attr_joins_with_one_space() {
    let div = GsElement::new("div", true)
        .add_attr("class", "a")
        .add_attr("class", "b")
        .add_attr("class", "c");
    assert_eq!(&vec![pair("class", "a b c")], div.get_attr());
    assert_eq!("<div class = \"a b c\"></div>", div.convert());
}

#[test]
fn repeated_push_attr_joins_with_one_space() {
    let mut div = GsElement::new("div", true);
    div.push_attr("class", "a");
    div.push_attr("class", "b");
    div.push_attr("class", "c");
    assert_eq!(&vec![pair("class", "a b c")], div.get_attr());
    assert_eq!("<div class = \"a b c\"></div>", div.convert());
}

#[test]
fn add_attr_and_push_attr_merge_alike() {
    let built = GsElement::new("a", true)
        .add_attr("rel", "nofollow")
        .add_attr("href", "/")
        .add_attr("rel", "noopener");
    let mut pushed = GsElement::new("a", true);
    pushed.push_attr("rel", "nofollow");
    pushed.push_attr("href", "/");
    pushed.push_attr("rel", "noopener");
    assert_eq!(built, pushed);

    let mut mixed = GsElement::new("a", true).add_attr("rel", "nofollow");
    mixed.push_attr("href", "/");
    let mixed = mixed.add_attr("rel", "noopener");
    assert_eq!(built, mixed);
}

#[test]
fn merged_attr_keeps_its_place() {
    let a = GsElement::new("a", true)
        .add_attr("rel", "nofollow")
        .add_attr("href", "/")
        .add_attr("rel", "noopener");
    assert_eq!(
        &vec![pair("rel", "nofollow noopener"), pair("href", "/")],
        a.get_attr()
    );
    assert_eq!(
        "<a rel = \"nofollow noopener\" href = \"/\"></a>",
        a.convert()
    );
}

#[test]
fn attr_values_are_joined_as_given() {
    let div = GsElement::new("div", true)
        .add_attr("class", "")
        .add_attr("class", "")
        .add_attr("class", "a b");
    assert_eq!(&vec![pair("class", "  a b")], div.get_attr());
}

#[test]
fn attr_names_are_compared_exactly() {
    let div = GsElement::new("div", true)
        .add_attr("id", "a")
        .add_attr("ID", "b");
    assert_eq!(&vec![pair("id", "a"), pair("ID", "b")], div.get_attr());
}

#[test]
fn attributes_on_a_void_element() {
    let mut img = GsElement::new("img", false).add_attr("src", "a.png");
    img.push_attr("alt", "a");
    assert_eq!(2, img.get_attr().len());
    assert_eq!("<img src = \"a.png\" alt = \"a\">", img.convert());
}

#[test]
fn two_paragraphs_in_a_div() {
    let div = GsElement::new("div", true)
        .add(&GsElement::new("p", true))
        .add(&GsElement::new("p", true));
    assert_eq!("<div><p></p><p></p></div>", div.convert());
}

#[test]
fn input_with_two_attributes() {
    let input = GsElement::new("input", false)
        .add_attr("type", "text")
        .add_attr("name", "login");
    let html = input.convert();
    assert_eq!("<input type = \"text\" name = \"login\">", html);
    assert_eq!(1, html.matches(" type = \"text\"").count());
    assert_eq!(1, html.matches(" name = \"login\"").count());
}

#[test]
fn text_then_children() {
    let mut div = GsElement::new("div", true);
    div.set_value("text").unwrap();
    div.push(&GsElement::new("p", true).add_value("one")).unwrap();
    div.push(&GsElement::new("p", true).add_value("two")).unwrap();
    assert_eq!("<div>text<p>one</p><p>two</p></div>", div.convert());
}

#[test]
fn text_set_after_children_still_comes_first() {
    let mut div = GsElement::new("div", true)
        .add(&GsElement::new("p", true).add_value("one"))
        .add_value("a");
    div.push(&GsElement::new("p", true).add_value("two")).unwrap();
    let mut div = div.add_value("b");
    assert_eq!("<div>ab<p>one</p><p>two</p></div>", div.convert());
    div.set_value("c").unwrap();
    assert_eq!("<div>c<p>one</p><p>two</p></div>", div.convert());
}

#[test]
fn void_child_in_a_closed_parent() {
    let p = GsElement::new("p", true)
        .add_value("line")
        .add(&GsElement::new("br", false))
        .add(&GsElement::new("b", true).add_value("bold"));
    assert_eq!("<p>line<br><b>bold</b></p>", p.convert());
}

#[test]
fn deep_nesting_renders_depth_first() {
    let leaf = GsElement::new("i", true).add_value("x");
    let mid = GsElement::new("b", true).add(&leaf).add(&leaf);
    let top = GsElement::new("p", true)
        .add_attr("id", "top")
        .add(&mid)
        .add(&leaf)
        .add(&mid);
    assert_eq!(
        "<p id = \"top\"><b><i>x</i><i>x</i></b><i>x</i><b><i>x</i><i>x</i></b></p>",
        top.convert()
    );
}

#[test]
fn nothing_is_escaped() {
    let p = GsElement::new("p", true)
        .add_value("a < b & \"c\"")
        .add_attr("title", "\"quoted\" <&>");
    assert_eq!(
        "<p title = \"\"quoted\" <&>\">a < b & \"c\"</p>",
        p.convert()
    );
}

#[test]
fn child_is_copied_on_add() {
    let mut p = GsElement::new("p", true);
    let div = GsElement::new("div", true).add(&p);
    p.set_value("changed").unwrap();
    p.push_attr("class", "late");
    assert_eq!("<div><p></p></div>", div.convert());
    assert_eq!("<p class = \"late\">changed</p>", p.convert());
}

#[test]
fn child_is_copied_on_push() {
    let mut p = GsElement::new("p", true);
    let mut div = GsElement::new("div", true);
    div.push(&p).unwrap();
    p.set_value("changed").unwrap();
    div.push(&p).unwrap();
    assert_eq!("<div><p></p><p>changed</p></div>", div.convert());
}

#[test]
fn removed_child_is_its_own_value() {
    let mut div = GsElement::new("div", true).add(&GsElement::new("p", true));
    let mut p = div.remove(0).unwrap();
    p.set_value("free").unwrap();
    assert_eq!("<div></div>", div.convert());
    assert_eq!("<p>free</p>", p.convert());
}

#[test]
fn clone_is_equal_and_independent() {
    let source = GsElement::new("div", true)
        .add_value("text")
        .add_attr("class", "a")
        .add(&GsElement::new("p", true).add_attr("id", "p").add_value("inner"));
    let mut copy = source.clone();
    assert_eq!(source, copy);
    assert_eq!(source.convert(), copy.convert());

    copy.set_value("other").unwrap();
    copy.push_attr("class", "b");
    copy.remove(0).unwrap();
    assert_eq!(
        "<div class = \"a\">text<p id = \"p\">inner</p></div>",
        source.convert()
    );
    assert_eq!("<div class = \"a b\">other</div>", copy.convert());
}

#[test]
fn get_children_lists_in_insertion_order() {
    let div = GsElement::new("div", true)
        .add(&GsElement::new("a", true))
        .add(&GsElement::new("b", true))
        .add(&GsElement::new("c", false));
    let tags: Vec<&str> = div.get_children().iter().map(|c| c.tag.as_str()).collect();
    assert_eq!(vec!["a", "b", "c"], tags);
}

#[test]
fn from_a_pair_is_new() {
    assert_eq!(GsElement::new("div", true), GsElement::from(("div", true)));
    assert_eq!(
        GsElement::new("br", false),
        GsElement::from((String::from("br"), false))
    );
    let into: GsElement = ("p", true).into();
    assert_eq!("<p></p>", into.convert());
}

#[test]
fn each_error_has_its_message() {
    assert_eq!("This is unclosed tag", GsError::UnclosedTag.message());
    assert_eq!("Index out of bounds", GsError::IndexOutOfBounds.message());
    assert_ne!(GsError::UnclosedTag, GsError::IndexOutOfBounds);
}

#[test]
fn builder_refusals_are_silent_but_mutation_refusals_are_not() {
    let built = GsElement::new("hr", false)
        .add_value("text")
        .add(&GsElement::new("p", true));
    let mut mutated = GsElement::new("hr", false);
    assert_eq!(Err(GsError::UnclosedTag), mutated.set_value("text"));
    assert_eq!(
        Err(GsError::UnclosedTag),
        mutated.push(&GsElement::new("p", true))
    );
    assert_eq!(built, mutated);
    assert_eq!("<hr>", built.convert());
}
