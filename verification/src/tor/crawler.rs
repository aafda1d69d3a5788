//! Result pages of search engines: the onion links on them, and the links
//! of several pages without repetition.

use vstd::prelude::*;
use crate::artifacts::{matches_in, matches_of};
use crate::html::{gather_text, pick, picked_models, selected, whole_text, Picked, PickedModel};
use crate::text::{
    chars_of, contains, has, holds, lowercase, names, string_of, strip_trailing, stripped_trailing,
    text_of, to_lowercase, trim, trimmed,
};

verus! {

/// Onion addresses with what follows them.
pub const ONION_LINK_PATTERN: &'static str = r#"https?://[a-z0-9\.]+\.onion[^\s"'<>]*"#;

/// Fewest characters of a link's title.
pub const MIN_TITLE_LENGTH: usize = 3;

/// A link on a result page.
#[derive(Debug, Clone)]
pub struct SearchResult {
    /// The link's text
    pub title: String,
    /// Where it points
    pub url: String,
    /// The search engine that returned it
    pub engine: String,
}

/// Whether a target or an address points back into a search: it contains
/// `search` or `query`.
pub open spec fn points_to_search(s: Seq<char>) -> bool {
    contains(s, "search"@) || contains(s, "query"@)
}

/// The link that an anchor stands for, as address and title: the first
/// onion address in its target, unless the target or that address points
/// back into a search or the anchor's trimmed text is shorter than three
/// characters.
pub open spec fn link_of(a: PickedModel) -> Option<(Seq<char>, Seq<char>)> {
    match a.href {
        None => None,
        Some(h) => {
            let found = matches_of(ONION_LINK_PATTERN@, h);
            let title = trim(whole_text(a.texts));
            if found.len() == 0 {
                None
            } else if points_to_search(h) || points_to_search(found[0]) {
                None
            } else if title.len() < MIN_TITLE_LENGTH {
                None
            } else {
                Some((found[0], title))
            }
        },
    }
}

/// The links of the anchors, in their order.
pub open spec fn links(anchors: Seq<PickedModel>) -> Seq<(Seq<char>, Seq<char>)>
    decreases anchors.len(),
{
    if anchors.len() == 0 {
        Seq::empty()
    } else {
        match link_of(anchors.last()) {
            Some(l) => links(anchors.drop_last()).push(l),
            None => links(anchors.drop_last()),
        }
    }
}

/// Address and title of each result.
pub open spec fn link_pairs(v: Seq<SearchResult>) -> Seq<(Seq<char>, Seq<char>)> {
    v.map_values(|r: SearchResult| (r.url@, r.title@))
}

/// No link has an address with `search` or `query` in it or a title of
/// fewer than three characters.
pub proof fn lemma_links_clean(anchors: Seq<PickedModel>)
    ensures
        forall|k: int|
            0 <= k < links(anchors).len() ==> {
                &&& !contains((#[trigger] links(anchors)[k]).0, "search"@)
                &&& !contains(links(anchors)[k].0, "query"@)
                &&& links(anchors)[k].1.len() >= MIN_TITLE_LENGTH
            },
    decreases anchors.len(),
{
    if anchors.len() > 0 {
        lemma_links_clean(anchors.drop_last());
        let before = links(anchors.drop_last());
        let all = links(anchors);
        assert forall|k: int| 0 <= k < all.len() implies {
            &&& !contains((#[trigger] all[k]).0, "search"@)
            &&& !contains(all[k].0, "query"@)
            &&& all[k].1.len() >= MIN_TITLE_LENGTH
        } by {
            if k < before.len() {
                assert(all[k] == before[k]);
            }
        }
    }
}

/// An anchor whose target contains `search` or `query`, or whose trimmed
/// text is shorter than three characters, stands for no link.
pub proof fn lemma_anchor_skipped(a: PickedModel)
    requires
        (a.href matches Some(h) && points_to_search(h)) || trim(whole_text(a.texts)).len()
            < MIN_TITLE_LENGTH,
    ensures
        link_of(a) is None,
{
}

/// The onion links on the result page `html` of the engine `engine`.
pub open spec fn found_links(html: Seq<char>, engine: Seq<char>) -> Seq<LinkModel> {
    links(selected(html, "a"@)).map_values(
        |l: (Seq<char>, Seq<char>)| LinkModel { url: l.0, title: l.1, engine },
    )
}

/// The link that an anchor stands for.
fn read_anchor(a: &Picked, engine_name: &str) -> (r: Option<SearchResult>)
    ensures
        match r {
            Some(x) => link_of(a.model()) == Some((x.url@, x.title@)) && x.engine@
                == engine_name@,
            None => link_of(a.model()) is None,
        },
{
    let href = match &a.href {
        Some(h) => h,
        None => {
            return None;
        },
    };
    let found = matches_in(ONION_LINK_PATTERN, href.as_str());
    if found.len() == 0 {
        return None;
    }
    assert(names(found@)[0] == found@[0]@);
    let target = chars_of(href.as_str());
    let url = chars_of(found[0].as_str());
    if has(&target, "search") || has(&target, "query") || has(&url, "search") || has(
        &url,
        "query",
    ) {
        return None;
    }
    let title = trimmed(&gather_text(&a.texts));
    if title.len() < MIN_TITLE_LENGTH {
        return None;
    }
    Some(
        SearchResult {
            title: text_of(&title),
            url: found[0].clone(),
            engine: engine_name.to_owned(),
        },
    )
}

/// The onion links on a result page of the search engine `engine_name`.
pub fn parse_search_results(html: &str, engine_name: &str) -> (out: Vec<SearchResult>)
    ensures
        link_pairs(out@) == links(selected(html@, "a"@)),
        forall|k: int| 0 <= k < out@.len() ==> (#[trigger] out@[k]).engine@ == engine_name@,
        link_models(out@) == found_links(html@, engine_name@),
{
    let anchors = pick(html, "a");
    let ghost m = picked_models(anchors@);
    let mut out: Vec<SearchResult> = Vec::new();
    let mut i: usize = 0;
    proof {
        assert(m.take(0) =~= Seq::<PickedModel>::empty());
        assert(link_pairs(out@) =~= links(m.take(0)));
    }
    while i < anchors.len()
        invariant
            i <= anchors.len(),
            m == picked_models(anchors@),
            link_pairs(out@) == links(m.take(i as int)),
            forall|k: int| 0 <= k < out@.len() ==> (#[trigger] out@[k]).engine@ == engine_name@,
        decreases anchors.len() - i,
    {
        proof {
            assert(m.take(i + 1).drop_last() =~= m.take(i as int));
            assert(m.take(i + 1).last() == anchors@[i as int].model());
        }
        match read_anchor(&anchors[i], engine_name) {
            Some(r) => {
                let ghost before = link_pairs(out@);
                out.push(r);
                assert(link_pairs(out@) =~= before.push((r.url@, r.title@)));
            },
            None => {},
        }
        i += 1;
    }
    assert(m.take(anchors@.len() as int) =~= m);
    proof {
        let pairs = links(selected(html@, "a"@));
        assert(link_models(out@).len() == pairs.len());
        assert forall|k: int| 0 <= k < out@.len() implies link_models(out@)[k] == found_links(
            html@,
            engine_name@,
        )[k] by {
            assert(link_pairs(out@)[k] == (out@[k].url@, out@[k].title@));
        }
        assert(link_models(out@) =~= found_links(html@, engine_name@));
    }
    out
}

/// What a result says: address, title and engine.
pub struct LinkModel {
    pub url: Seq<char>,
    pub title: Seq<char>,
    pub engine: Seq<char>,
}

impl SearchResult {
    /// What the result says.
    pub open spec fn model(&self) -> LinkModel {
        LinkModel { url: self.url@, title: self.title@, engine: self.engine@ }
    }
}

/// The model of each result.
pub open spec fn link_models(v: Seq<SearchResult>) -> Seq<LinkModel> {
    v.map_values(|r: SearchResult| r.model())
}

/// The key under which two links count as one: the address without its
/// trailing slashes, in lower case.
pub open spec fn link_key(url: Seq<char>) -> Seq<char> {
    lowercase(strip_trailing(url, '/'))
}

/// The key of each result.
pub open spec fn link_keys(v: Seq<LinkModel>) -> Seq<Seq<char>> {
    v.map_values(|r: LinkModel| link_key(r.url))
}

/// The results without those whose key an earlier one has.
pub open spec fn unique_links(v: Seq<LinkModel>) -> Seq<LinkModel>
    decreases v.len(),
{
    if v.len() == 0 {
        Seq::empty()
    } else {
        let before = unique_links(v.drop_last());
        if link_keys(before).contains(link_key(v.last().url)) {
            before
        } else {
            before.push(v.last())
        }
    }
}

/// The results of all pages, page after page.
pub open spec fn all_links(pages: Seq<Seq<LinkModel>>) -> Seq<LinkModel>
    decreases pages.len(),
{
    if pages.len() == 0 {
        Seq::empty()
    } else {
        all_links(pages.drop_last()) + pages.last()
    }
}

/// The models of the results of each page.
pub open spec fn page_models(pages: Seq<Vec<SearchResult>>) -> Seq<Seq<LinkModel>> {
    pages.map_values(|p: Vec<SearchResult>| link_models(p@))
}

/// The key of a link.
pub fn key_of_link(url: &str) -> (r: String)
    ensures
        r@ == link_key(url@),
{
    let bare = stripped_trailing(&chars_of(url), '/');
    to_lowercase(string_of(&bare).as_str())
}

/// The results of all pages, each link once: the first under each key
/// stays.
pub fn merge_results(pages: Vec<Vec<SearchResult>>) -> (out: Vec<SearchResult>)
    ensures
        link_models(out@) == unique_links(all_links(page_models(pages@))),
{
    let ghost ps = page_models(pages@);
    let ghost raw = pages@;
    let mut out: Vec<SearchResult> = Vec::new();
    let mut seen: Vec<String> = Vec::new();
    proof {
        assert(ps.take(0) =~= Seq::<Seq<LinkModel>>::empty());
        assert(names(seen@) =~= link_keys(link_models(out@)));
        assert(link_models(out@) =~= Seq::<LinkModel>::empty());
    }
    for page in it: pages
        invariant
            it.seq() == raw,
            ps == page_models(raw),
            link_models(out@) == unique_links(all_links(ps.take(it.index() as int))),
            names(seen@) == link_keys(link_models(out@)),
    {
        let ghost i = it.index() as int;
        let ghost base = all_links(ps.take(i));
        let ghost items = link_models(page@);
        let ghost held = page@;
        proof {
            assert(ps.take(i + 1).drop_last() =~= ps.take(i));
            assert(ps.take(i + 1).last() == items);
            assert(base + items.take(0) =~= base);
        }
        for r in jt: page
            invariant
                jt.seq() == held,
                items == link_models(held),
                link_models(out@) == unique_links(base + items.take(jt.index() as int)),
                names(seen@) == link_keys(link_models(out@)),
        {
            let ghost j = jt.index() as int;
            proof {
                let t = base + items.take(j + 1);
                assert(t.drop_last() =~= base + items.take(j));
                assert(t.last() == r.model());
            }
            let key = key_of_link(r.url.as_str());
            if !holds(&seen, key.as_str()) {
                let ghost keys = names(seen@);
                let ghost before = link_models(out@);
                seen.push(key);
                out.push(r);
                assert(names(seen@) =~= keys.push(link_key(r.url@)));
                assert(link_models(out@) =~= before.push(r.model()));
                assert(link_keys(link_models(out@)) =~= link_keys(before).push(link_key(r.url@)));
            }
        }
        assert(items.take(items.len() as int) =~= items);
    }
    assert(ps.take(ps.len() as int) =~= ps);
    out
}

} // verus!
