//! Pages: their title and their visible text.

use vstd::prelude::*;
use crate::html::{
    gather_text, pick, picked_models, selected, text_models, whole_text, TextModel, TextNode,
};
use crate::text::{
    chars_of, holds, join, joined, normalized, prefix, push_str, split_words, text_of,
    texts, trim, trimmed,
};

verus! {

/// Most characters of a page's text.
pub const MAX_CONTENT_LENGTH: usize = 4000;

/// What was read from a page.
#[derive(Debug, Clone)]
pub struct ScrapedPage {
    /// The page's address
    pub url: String,
    /// Its title
    pub title: Option<String>,
    /// Its visible text, cut to length
    pub text: String,
    /// Number of characters of `text`
    pub char_count: usize,
    /// Whether the text was cut
    pub truncated: bool,
}

/// Whether a piece of text is shown: it lies in no `script`, `style` or
/// `noscript` element.
pub open spec fn visible(t: TextModel) -> bool {
    &&& !t.ancestors.contains("script"@)
    &&& !t.ancestors.contains("style"@)
    &&& !t.ancestors.contains("noscript"@)
}

/// The trimmed texts of the visible pieces that are not blank.
pub open spec fn visible_parts(pieces: Seq<TextModel>) -> Seq<Seq<char>>
    decreases pieces.len(),
{
    if pieces.len() == 0 {
        Seq::empty()
    } else {
        let before = visible_parts(pieces.drop_last());
        let t = pieces.last();
        if visible(t) && trim(t.text).len() > 0 {
            before.push(trim(t.text))
        } else {
            before
        }
    }
}

/// The title of a document: the trimmed text of its first `title` element.
pub open spec fn title_of(html: Seq<char>) -> Option<Seq<char>> {
    let titles = selected(html, "title"@);
    if titles.len() == 0 {
        None
    } else {
        Some(trim(whole_text(titles[0].texts)))
    }
}

/// The visible text of a document: the visible parts of its first `body`
/// element, with one blank between each two words.
pub open spec fn body_text(html: Seq<char>) -> Seq<char> {
    let bodies = selected(html, "body"@);
    if bodies.len() == 0 {
        Seq::empty()
    } else {
        normalized(join(visible_parts(bodies[0].texts), seq![' ']))
    }
}

/// `text` cut to 4000 characters, with a note where it was cut.
pub open spec fn limited(text: Seq<char>) -> Seq<char> {
    if text.len() > MAX_CONTENT_LENGTH {
        text.take(MAX_CONTENT_LENGTH as int) + "...(truncated)"@
    } else {
        text
    }
}

/// `text` with one blank between each two words and none at its ends.
pub fn normalize_whitespace(text: &str) -> (r: String)
    ensures
        r@ == normalized(text@),
{
    let words = split_words(&chars_of(text));
    let mut sep: Vec<char> = Vec::new();
    sep.push(' ');
    assert(sep@ =~= seq![' ']);
    text_of(&joined(&words, &sep))
}

/// Whether a piece of text is shown.
fn shown(t: &TextNode) -> (r: bool)
    ensures
        r == visible(t.model()),
{
    !holds(&t.ancestors, "script") && !holds(&t.ancestors, "style") && !holds(
        &t.ancestors,
        "noscript",
    )
}

/// Title and visible text of a document.
pub fn extract_content(html: &str) -> (r: (Option<String>, String))
    ensures
        crate::artifacts::opt_text(r.0) == title_of(html@),
        r.1@ == body_text(html@),
{
    let titles = pick(html, "title");
    let title = if titles.len() == 0 {
        None
    } else {
        assert(picked_models(titles@)[0] == titles@[0].model());
        Some(text_of(&trimmed(&gather_text(&titles[0].texts))))
    };
    let bodies = pick(html, "body");
    if bodies.len() == 0 {
        return (title, String::new());
    }
    assert(picked_models(bodies@)[0] == bodies@[0].model());
    let pieces = &bodies[0].texts;
    let ghost m = text_models(pieces@);
    let mut parts: Vec<Vec<char>> = Vec::new();
    let mut i: usize = 0;
    proof {
        assert(m.take(0) =~= Seq::<TextModel>::empty());
        assert(texts(parts@) =~= visible_parts(m.take(0)));
    }
    while i < pieces.len()
        invariant
            i <= pieces.len(),
            m == text_models(pieces@),
            texts(parts@) == visible_parts(m.take(i as int)),
        decreases pieces.len() - i,
    {
        proof {
            assert(m.take(i + 1).drop_last() =~= m.take(i as int));
            assert(m.take(i + 1).last() == pieces@[i as int].model());
        }
        if shown(&pieces[i]) {
            let t = trimmed(&chars_of(pieces[i].text.as_str()));
            if t.len() > 0 {
                let ghost before = texts(parts@);
                parts.push(t);
                assert(texts(parts@) =~= before.push(t@));
            }
        }
        i += 1;
    }
    assert(m.take(pieces@.len() as int) =~= m);
    let mut sep: Vec<char> = Vec::new();
    sep.push(' ');
    assert(sep@ =~= seq![' ']);
    let all = joined(&parts, &sep);
    let words = split_words(&all);
    let text = text_of(&joined(&words, &sep));
    (title, text)
}

/// `text` cut to 4000 characters, and whether it was cut.
pub fn limit_content(text: &str) -> (r: (String, bool))
    ensures
        r.0@ == limited(text@),
        r.1 == (text@.len() > MAX_CONTENT_LENGTH),
{
    let v = chars_of(text);
    if v.len() > MAX_CONTENT_LENGTH {
        let mut cut = prefix(&v, MAX_CONTENT_LENGTH);
        push_str(&mut cut, "...(truncated)");
        (text_of(&cut), true)
    } else {
        (text_of(&v), false)
    }
}

/// The page at `url` as the response shows it: an empty page where the
/// request was not successful, else title and text of the document.
pub fn page_from(url: &str, success: bool, html: &str) -> (page: ScrapedPage)
    ensures
        page.url@ == url@,
        !success ==> page.title is None && page.text@.len() == 0 && page.char_count == 0
            && !page.truncated,
        success ==> {
            &&& crate::artifacts::opt_text(page.title) == title_of(html@)
            &&& page.text@ == limited(body_text(html@))
            &&& page.char_count == page.text@.len()
            &&& page.truncated == (body_text(html@).len() > MAX_CONTENT_LENGTH)
        },
{
    if !success {
        return ScrapedPage {
            url: url.to_owned(),
            title: None,
            text: String::new(),
            char_count: 0,
            truncated: false,
        };
    }
    let (title, text) = extract_content(html);
    let (text, truncated) = limit_content(text.as_str());
    let char_count = text.as_str().unicode_len();
    ScrapedPage { url: url.to_owned(), title, text, char_count, truncated }
}

} // verus!
