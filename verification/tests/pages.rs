//! The queries that a parsed page answers.

use koan_case::{get_text, Page, MAX_HTML_BYTES};

#[test]
fn find_name_lists_elements_in_document_order() {
    let page = Page::parse("<p>one</p><div><p>two</p></div><p>three</p>");
    let found = page.find_name("p");
    assert_eq!(found.len(), 3);
    assert!(found[0] < found[1] && found[1] < found[2]);
    assert_eq!(page.text(found[0]), "one");
    assert_eq!(page.text(found[1]), "two");
    assert_eq!(page.text(found[2]), "three");
}

#[test]
fn find_name_finds_nothing_where_no_element_has_the_name() {
    let page = Page::parse("<p>one</p>");
    assert_eq!(page.find_name("table"), Vec::<usize>::new());
    assert_eq!(page.find_name(""), Vec::<usize>::new());
}

#[test]
fn find_name_does_not_take_text_for_an_element() {
    let page = Page::parse("<p>title</p><!-- title -->");
    assert_eq!(page.find_name("title").len(), 0);
}

#[test]
fn find_name_goes_by_the_lower_case_name() {
    let page = Page::parse("<HTML><HEAD><TITLE>Loud</TITLE></HEAD></HTML>");
    assert_eq!(page.find_name("title").len(), 1);
    assert_eq!(page.find_name("TITLE").len(), 0);
}

#[test]
fn find_class_finds_each_element_that_lists_the_class() {
    let page = Page::parse(
        "<div class=\"koan\">a</div>\
         <p class=\"first koan last\">b</p>\
         <span class=\"other\">c</span>\
         <em class=\"\tkoan\n\">d</em>\
         <i>e</i>",
    );
    let found = page.find_class("koan");
    assert_eq!(found.len(), 3);
    assert_eq!(page.text(found[0]), "a");
    assert_eq!(page.text(found[1]), "b");
    assert_eq!(page.text(found[2]), "d");
}

#[test]
fn find_class_wants_the_whole_class_name() {
    let page = Page::parse(
        "<div class=\"koans\">a</div><div class=\"a-koan\">b</div><div class=\"Koan\">c</div>",
    );
    assert_eq!(page.find_class("koan").len(), 0);
    assert_eq!(page.find_class("").len(), 0);
}

#[test]
fn find_class_lists_an_element_before_the_elements_inside_it() {
    let page = Page::parse("<div class=\"koan\">out<b class=\"koan\">in</b></div>");
    let found = page.find_class("koan");
    assert_eq!(found.len(), 2);
    assert_eq!(page.find_name("div"), vec![found[0]]);
    assert_eq!(page.find_name("b"), vec![found[1]]);
    assert!(found[0] < found[1]);
}

#[test]
fn first_child_is_the_first_node_inside() {
    let page = Page::parse("<div><p>one</p><b>two</b> three</div>");
    let div = page.find_name("div")[0];
    let p = page.find_name("p")[0];
    assert_eq!(page.first_child(div), Some(p));
    assert_ne!(page.first_child(div), Some(div));
}

#[test]
fn first_child_may_be_a_text() {
    let page = Page::parse("<div>zero<p>one</p></div>");
    let div = page.find_name("div")[0];
    let child = page.first_child(div).unwrap();
    assert_ne!(child, div);
    assert_ne!(child, page.find_name("p")[0]);
    assert_eq!(page.text(child), "zero");
    assert_eq!(page.first_child(child), None);
}

#[test]
fn first_child_of_an_empty_element_is_none() {
    let page = Page::parse("<div></div>");
    let div = page.find_name("div")[0];
    assert_eq!(page.first_child(div), None);
}

#[test]
fn text_joins_the_texts_below_a_node() {
    let page = Page::parse("<div> a<p>b <i>c</i></p><!-- not this -->d </div>");
    let div = page.find_name("div")[0];
    assert_eq!(page.text(div), " ab cd ");
    assert_eq!(page.text(page.find_name("i")[0]), "c");
}

#[test]
fn text_of_an_empty_element_is_empty() {
    let page = Page::parse("<div></div>");
    assert_eq!(page.text(page.find_name("div")[0]), "");
}

#[test]
fn get_text_trims_the_text_of_a_node() {
    let page = Page::parse("<div>\n  lorem <b> ipsum </b>\n</div>");
    let div = page.find_name("div")[0];
    assert_eq!(page.text(div), "\n  lorem  ipsum \n");
    assert_eq!(get_text(&page, div), "lorem  ipsum");
    assert_eq!(get_text(&page, page.find_name("b")[0]), "ipsum");
}

#[test]
fn parse_takes_text_that_is_no_html() {
    let page = Page::parse("lorem <<< ipsum </p></div> &&;");
    assert_eq!(page.find_name("p").len(), 1);
    assert_eq!(page.find_name("div").len(), 0);
    assert_eq!(page.find_name("body").len(), 1);
}

#[test]
fn parse_gives_the_same_page_for_the_same_text() {
    let html = "<title>t</title><div class=\"koan\">k</div>";
    let one = Page::parse(html);
    let two = Page::parse(html);
    assert_eq!(one.find_name("title"), two.find_name("title"));
    assert_eq!(one.find_class("koan"), two.find_class("koan"));
    let koan = one.find_class("koan")[0];
    assert_eq!(one.text(koan), two.text(koan));
    assert_eq!(one.first_child(koan), two.first_child(koan));
}

#[test]
fn len_counts_every_node() {
    let empty = Page::parse("");
    assert_eq!(empty.len(), 3);
    assert_eq!(empty.find_name("html"), vec![0]);
    assert_eq!(empty.find_name("head"), vec![1]);
    assert_eq!(empty.find_name("body"), vec![2]);

    let page = Page::parse("<p>one<!-- two --><b>three</b></p>");
    assert_eq!(page.len(), 8);
    let b = page.find_name("b")[0];
    assert_eq!(b, 6);
    assert_eq!(page.first_child(b), Some(7));
    assert!(page.first_child(b).unwrap() < page.len());
}

#[test]
fn longest_text_leaves_room_for_three_bytes_for_one() {
    assert_eq!(MAX_HTML_BYTES, 0x2000_0000);
    assert!((MAX_HTML_BYTES as u64) * 3 <= 1u64 << 31);
}

#[test]
fn parse_writes_three_bytes_for_a_nul_in_a_title() {
    let page = Page::parse("<title>a\0b</title>");
    let title = page.find_name("title")[0];
    assert_eq!(page.text(title), "a\u{fffd}b");
    assert_eq!(page.text(title).len(), 5);
}

#[test]
fn parse_takes_misplaced_and_unclosed_tags() {
    let texts = [
        "<",
        "</",
        "<!",
        "<!--",
        "<!DOCTYPE",
        "<title>",
        "<title><title>",
        "</title>",
        "<b><i></b></i>",
        "<table><b><tr><td>x</b></td></tr>y</table>",
        "<select><option><div><select>",
        "<template><title>t</title></template>",
        "<frameset><frame><title>t</title></frameset>",
        "<svg><title>a<math><mi>b</svg></title>",
        "<p class>x<p class=>y<p class='koan koan'>z",
        "<div class=koan><plaintext></div><title>",
        "<script><title>a</title></script>",
        "<textarea>\n<div class=koan></textarea>",
        "&amp;&#0;&#x110000;&nGt;&unknown;&",
        "\u{feff}<html><body>\r\n\0</body></html>trailing",
    ];
    for html in texts {
        let page = Page::parse(html);
        assert!(page.len() >= 3);
        for node in 0..page.len() {
            let text = page.text(node);
            if let Some(child) = page.first_child(node) {
                assert!(node < child && child < page.len());
                assert!(text.len() >= page.text(child).len());
            }
        }
        for found in [page.find_name("title"), page.find_class("koan")] {
            assert!(found.windows(2).all(|pair| pair[0] < pair[1]));
            assert!(found.iter().all(|node| *node < page.len()));
        }
    }
}

#[test]
fn parse_takes_pieces_of_tags_in_any_order() {
    let pieces = [
        "<title>", "</title>", "<div class=\"koan\">", "</div>", "<p>", "<b>", "</b>", "<table>",
        "<td>", "</table>", "<svg>", "</svg>", "<!--", "-->", " ", "\n", "x", "&", "\0", "<", ">",
        "\"", "=", "class", "<template>", "<select>", "</p>", "<br/>",
    ];
    let mut state: u32 = 2463534242;
    for _ in 0..400 {
        let mut html = String::new();
        for _ in 0..24 {
            state ^= state << 13;
            state ^= state >> 17;
            state ^= state << 5;
            html.push_str(pieces[(state % pieces.len() as u32) as usize]);
        }
        let page = Page::parse(&html);
        for node in 0..page.len() {
            if let Some(child) = page.first_child(node) {
                assert!(node < child && child < page.len());
            }
            assert_eq!(get_text(&page, node), page.text(node).trim());
        }
    }
}

#[test]
fn parse_takes_elements_nested_a_thousand_deep() {
    let html = "<div class=\"koan\">".repeat(1000) + "x" + &"</div>".repeat(1000);
    let page = Page::parse(&html);
    let found = page.find_class("koan");
    assert_eq!(found.len(), 1000);
    assert_eq!(page.text(found[0]), "x");
    assert_eq!(page.text(found[999]), "x");
}
