//! The case that a page holds: its title and its koan text.

use crate::dom::{lemma_matching, matching, positions, NodeView, Page, Selector};
use crate::text::{is_blank, lemma_trimmed_empty_iff_blank, trim, trimmed};
use vstd::prelude::*;
use vstd::string::*;

verus! {

/// What was scraped from one page.
#[derive(Debug)]
pub struct Case {
    /// The text of the first child of the page's last `title` element, trimmed.
    pub title: String,
    /// The trimmed texts of the page's `koan` elements, one after the other;
    /// `None` where that is empty.
    pub text: Option<String>,
}

/// A case as plain sequences of characters.
pub struct CaseView {
    pub title: Seq<char>,
    pub text: Option<Seq<char>>,
}

impl CaseView {
    /// The text of a case is either absent or not empty.
    pub open spec fn well_formed(self) -> bool {
        self.text matches Some(text) ==> text.len() > 0
    }
}

impl View for Case {
    type V = CaseView;

    open spec fn view(&self) -> CaseView {
        CaseView { title: self.title@, text: self.text.deep_view() }
    }
}

impl DeepView for Case {
    type V = CaseView;

    open spec fn deep_view(&self) -> CaseView {
        self@
    }
}

/// The positions of the `title` elements, in document order.
pub open spec fn title_elements(nodes: Seq<NodeView>) -> Seq<int> {
    matching(nodes, Selector::Tag("title"@))
}

/// The positions of the elements of class `koan`, in document order.
pub open spec fn koan_elements(nodes: Seq<NodeView>) -> Seq<int> {
    matching(nodes, Selector::Class("koan"@))
}

/// The trimmed text of the node at `node`.
pub open spec fn trimmed_text(nodes: Seq<NodeView>, node: int) -> Seq<char> {
    trimmed(nodes[node].text)
}

/// The title of a page: the trimmed text of the first child of the last
/// `title` element. There is none where the page has no `title` element, or
/// where the last one has no child.
pub open spec fn title_of(nodes: Seq<NodeView>) -> Option<Seq<char>> {
    let titles = title_elements(nodes);
    if titles.len() == 0 {
        None
    } else {
        match nodes[titles.last()].first_child {
            Some(child) => Some(trimmed_text(nodes, child)),
            None => None,
        }
    }
}

/// The trimmed texts of the nodes at `positions`, one after the other with
/// nothing between them.
pub open spec fn joined_text(nodes: Seq<NodeView>, positions: Seq<int>) -> Seq<char>
    decreases positions.len(),
{
    if positions.len() == 0 {
        Seq::empty()
    } else {
        joined_text(nodes, positions.drop_last()) + trimmed_text(nodes, positions.last())
    }
}

/// The koan text of a page: the joined text of its `koan` elements, and none
/// where that is empty.
pub open spec fn koan_text_of(nodes: Seq<NodeView>) -> Option<Seq<char>> {
    let joined = joined_text(nodes, koan_elements(nodes));
    if joined.len() == 0 {
        None
    } else {
        Some(joined)
    }
}

/// The case of a page: its title with its koan text, and none where the page
/// has no title.
pub open spec fn case_of(nodes: Seq<NodeView>) -> Option<CaseView> {
    match title_of(nodes) {
        Some(title) => Some(CaseView { title, text: koan_text_of(nodes) }),
        None => None,
    }
}

/// What is printed for a case: the title, an empty line and the text, each
/// line ended. Only a case that has a text is printed.
pub open spec fn rendering(case: CaseView) -> Seq<char>
    recommends
        case.text is Some,
{
    case.title + seq!['\n', '\n'] + case.text->0 + seq!['\n']
}

/// The text of the node at `node`, without the white space at its ends.
pub fn get_text(page: &Page, node: usize) -> (text: String)
    requires
        node < page@.len(),
    ensures
        text@ == trimmed_text(page@, node as int),
{
    let whole = page.text(node);
    trim(whole.as_str())
}

/// A case that holds the page's title and no text yet.
pub fn get_case_with_title(page: &Page) -> (found: Option<Case>)
    ensures
        found.deep_view() == match title_of(page@) {
            Some(title) => Some(CaseView { title, text: None }),
            None => None,
        },
{
    let titles = page.find_name("title");
    if titles.len() == 0 {
        return None;
    }
    let last = titles[titles.len() - 1];
    proof {
        lemma_matching(page@, Selector::Tag("title"@));
    }
    match page.first_child(last) {
        Some(child) => Some(Case { title: get_text(page, child), text: None }),
        None => None,
    }
}

/// The page's koan text.
pub fn get_koan_text(page: &Page) -> (text: Option<String>)
    ensures
        text.deep_view() == koan_text_of(page@),
{
    let found = page.find_class("koan");
    let ghost koans = koan_elements(page@);
    proof {
        lemma_matching(page@, Selector::Class("koan"@));
    }
    let mut text = String::new();
    let mut i: usize = 0;
    while i < found.len()
        invariant
            i <= found.len(),
            positions(found@) == koans,
            forall|k: int| 0 <= k < koans.len() ==> 0 <= #[trigger] koans[k] < page@.len(),
            text@ == joined_text(page@, koans.take(i as int)),
        decreases found.len() - i,
    {
        assert(positions(found@)[i as int] == found[i as int] as int);
        let piece = get_text(page, found[i]);
        text.append(piece.as_str());
        proof {
            assert(koans.take(i + 1).drop_last() == koans.take(i as int));
        }
        i += 1;
    }
    proof {
        assert(koans.take(found.len() as int) == koans);
    }
    if text.as_str().is_empty() {
        None
    } else {
        Some(text)
    }
}

/// The page's case: its title and its koan text.
pub fn get_case(page: &Page) -> (found: Option<Case>)
    ensures
        found.deep_view() == case_of(page@),
        found matches Some(case) ==> case@.well_formed(),
{
    match get_case_with_title(page) {
        Some(mut case) => {
            case.text = get_koan_text(page);
            Some(case)
        },
        None => None,
    }
}

/// The lines to print for a case. A case without text has none: what to do
/// with such a case is left to the caller.
pub fn render(case: &Case) -> (lines: String)
    requires
        case.text is Some,
    ensures
        lines@ == rendering(case@),
{
    let mut lines = String::new();
    lines.append(case.title.as_str());
    lines.append("\n\n");
    if let Some(text) = &case.text {
        lines.append(text.as_str());
    }
    lines.append("\n");
    proof {
        reveal_strlit("\n\n");
        reveal_strlit("\n");
    }
    lines
}

/// The last `title` element decides the title, however many there are: where
/// it has a first child, the title is that child's trimmed text, and where it
/// has none, there is no title.
pub proof fn lemma_last_title_decides(nodes: Seq<NodeView>, last: int)
    requires
        0 <= last < nodes.len(),
        nodes[last].tag == Some("title"@),
        forall|i: int| last < i < nodes.len() ==> (#[trigger] nodes[i]).tag != Some("title"@),
    ensures
        title_of(nodes) == match nodes[last].first_child {
            Some(child) => Some(trimmed(nodes[child].text)),
            None => None,
        },
{
    lemma_matching(nodes, Selector::Tag("title"@));
}

/// A page without a `title` element has no title and no case.
pub proof fn lemma_no_title_element(nodes: Seq<NodeView>)
    requires
        forall|i: int| 0 <= i < nodes.len() ==> (#[trigger] nodes[i]).tag != Some("title"@),
    ensures
        title_of(nodes) is None,
        case_of(nodes) is None,
{
    lemma_matching(nodes, Selector::Tag("title"@));
}

/// Joined text is empty exactly if the text of each of the nodes is white
/// space throughout.
pub proof fn lemma_joined_text_empty(nodes: Seq<NodeView>, positions: Seq<int>)
    ensures
        joined_text(nodes, positions).len() == 0 <==> forall|k: int|
            0 <= k < positions.len() ==> is_blank(nodes[#[trigger] positions[k]].text),
    decreases positions.len(),
{
    if positions.len() > 0 {
        let front = positions.drop_last();
        lemma_joined_text_empty(nodes, front);
        lemma_trimmed_empty_iff_blank(nodes[positions.last()].text);
        if joined_text(nodes, positions).len() == 0 {
            assert forall|k: int| 0 <= k < positions.len() implies is_blank(
                nodes[#[trigger] positions[k]].text,
            ) by {
                if k < front.len() {
                    assert(front[k] == positions[k]);
                }
            }
        } else if joined_text(nodes, front).len() != 0 {
            let k = choose|k: int| 0 <= k < front.len() && !is_blank(nodes[front[k]].text);
        }
    }
}

/// A page has no koan text exactly if nothing is left of the text of each of
/// its `koan` elements after trimming, that is, if each is white space
/// throughout; so it is for a page without such elements. Otherwise its koan
/// text is the joined text of these elements.
pub proof fn lemma_koan_text_none_iff_blank(nodes: Seq<NodeView>)
    ensures
        koan_text_of(nodes) is None <==> forall|i: int|
            0 <= i < nodes.len() && (#[trigger] nodes[i]).classes.contains("koan"@)
                ==> trimmed_text(nodes, i).len() == 0,
        koan_text_of(nodes) is None <==> forall|i: int|
            0 <= i < nodes.len() && (#[trigger] nodes[i]).classes.contains("koan"@) ==> is_blank(
                nodes[i].text,
            ),
        koan_text_of(nodes) matches Some(text) ==> text == joined_text(nodes, koan_elements(nodes))
            && text.len() > 0,
{
    let koans = koan_elements(nodes);
    lemma_matching(nodes, Selector::Class("koan"@));
    lemma_joined_text_empty(nodes, koans);
    assert forall|i: int| 0 <= i < nodes.len() implies (trimmed_text(nodes, i).len() == 0
        <==> is_blank(#[trigger] nodes[i].text)) by {
        lemma_trimmed_empty_iff_blank(nodes[i].text);
    }
    if koan_text_of(nodes) is None {
        assert forall|i: int|
            0 <= i < nodes.len() && (#[trigger] nodes[i]).classes.contains(
                "koan"@,
            ) implies is_blank(nodes[i].text) by {
            let k = choose|k: int| 0 <= k < koans.len() && koans[k] == i;
        }
    } else {
        let k = choose|k: int| 0 <= k < koans.len() && !is_blank(nodes[koans[k]].text);
    }
}

/// A page has a case exactly if it has a title. The case then holds that
/// title and the page's koan text, and is well formed.
pub proof fn lemma_case_follows_title_and_text(nodes: Seq<NodeView>)
    ensures
        case_of(nodes) is None <==> title_of(nodes) is None,
        case_of(nodes) matches Some(case) ==> {
            &&& title_of(nodes) == Some(case.title)
            &&& case.text == koan_text_of(nodes)
            &&& case.well_formed()
        },
{
}

} // verus!
