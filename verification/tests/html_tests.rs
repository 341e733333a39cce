use access_filter::html::prettify;

#[test]
fn nested_tags_are_split_and_indented() {
    assert_eq!(
        prettify("<div><p>hi</p></div>"),
        "<div>\n  <p>hi\n  </p>\n</div>"
    );
}

#[test]
fn empty_input_stays_empty() {
    assert_eq!(prettify(""), "");
}

#[test]
fn plain_text_is_left_alone() {
    assert_eq!(prettify("hello world"), "hello world");
}

#[test]
fn comments_move_onto_their_own_lines() {
    assert_eq!(
        prettify("<!-- c --><b>x</b>"),
        "<!-- c -->\n  \n  <b>x\n  </b>"
    );
}

#[test]
fn doctype_does_not_indent_what_follows() {
    assert_eq!(
        prettify("<!DOCTYPE html><html></html>"),
        "<!DOCTYPE html>\n<html>\n</html>"
    );
}

#[test]
fn self_closing_tag_stays_level() {
    assert_eq!(
        prettify("<div><br/><b>x</b></div>"),
        "<div>\n  <br/>\n  <b>x\n  </b>\n</div>"
    );
}

#[test]
fn unmatched_closing_tag_keeps_level_zero() {
    assert_eq!(prettify("</div>"), "</div>");
}

#[test]
fn surrounding_whitespace_is_trimmed() {
    assert_eq!(prettify("  \n <b>x</b> \n"), "<b>x\n</b>");
}
