//! YouTube channel feeds: the RSS feed's structure and which of its entries
//! become new videos.
use html_parser::{Dom, Node};
use vstd::prelude::*;

verus! {

/// Root element of a channel's RSS feed.
#[derive(Debug, Clone, PartialEq, Eq)]
pub struct Feed {
    pub links: Vec<Link>,
    pub id: String,
    pub channel_id: String,
    pub title: String,
    pub author: Author,
    pub published: String,
    pub entries: Vec<Entry>,
}

/// A link with its relation.
#[derive(Debug, Clone, PartialEq, Eq)]
pub struct Link {
    pub rel: String,
    pub href: String,
}

/// An author's name and address.
#[derive(Debug, Clone, PartialEq, Eq)]
pub struct Author {
    pub name: String,
    pub uri: String,
}

/// One video of the feed.
#[derive(Debug, Clone, PartialEq, Eq)]
pub struct Entry {
    pub id: String,
    pub video_id: String,
    pub channel_id: String,
    pub title: String,
    pub link: Link,
    pub author: Author,
    pub published: String,
    pub updated: String,
    pub media_group: MediaGroup,
}

/// A video's media metadata.
#[derive(Debug, Clone, PartialEq, Eq)]
pub struct MediaGroup {
    pub title: String,
    pub content: MediaContent,
    pub thumbnail: MediaThumbnail,
    pub description: String,
    pub community: MediaCommunity,
}

/// The embedded player.
#[derive(Debug, Clone, PartialEq, Eq)]
pub struct MediaContent {
    pub url: String,
    pub content_type: String,
    pub width: String,
    pub height: String,
}

/// The thumbnail image.
#[derive(Debug, Clone, PartialEq, Eq)]
pub struct MediaThumbnail {
    pub url: String,
    pub width: String,
    pub height: String,
}

/// Ratings and statistics.
#[derive(Debug, Clone, PartialEq, Eq)]
pub struct MediaCommunity {
    pub star_rating: MediaStarRating,
    pub statistics: MediaStatistics,
}

/// Star rating attributes.
#[derive(Debug, Clone, PartialEq, Eq)]
pub struct MediaStarRating {
    pub count: String,
    pub average: String,
    pub min: String,
    pub max: String,
}

/// View count.
#[derive(Debug, Clone, PartialEq, Eq)]
pub struct MediaStatistics {
    pub views: String,
}

/// A video to store.
#[derive(Debug, Clone, PartialEq, Eq)]
pub struct NewVideo {
    pub youtube_id: String,
    pub title: String,
    pub channel_name: String,
    /// Seconds since the Unix epoch.
    pub published_at: i64,
    pub thumbnail_url: String,
    pub video_url: String,
    pub watched: bool,
}

/// The Unix time (whole seconds) of a date as chrono's `DateTime<Utc>`
/// parser reads it (RFC 3339 dates, and the looser forms that parser also
/// accepts), or none when it does not parse.
pub uninterp spec fn date_seconds(text: Seq<char>) -> Option<i64>;

/// `text.parse::<chrono::DateTime<chrono::Utc>>()` followed by
/// `timestamp()`: claims the result is `date_seconds` of the text.
#[verifier::external_body]
fn parse_published(text: &str) -> (r: Option<i64>)
    ensures
        r == date_seconds(text@),
{
    match text.parse::<chrono::DateTime<chrono::Utc>>() {
        Ok(dt) => Some(dt.timestamp()),
        Err(_) => None,
    }
}

/// The stored form of an entry published at `published_at`.
pub open spec fn video_of(e: Entry, published_at: i64) -> NewVideo {
    NewVideo {
        youtube_id: e.id,
        title: e.title,
        channel_name: e.author.name,
        published_at,
        thumbnail_url: e.media_group.thumbnail.url,
        video_url: e.link.href,
        watched: false,
    }
}

/// The ids of videos.
pub open spec fn video_ids(vs: Seq<NewVideo>) -> Seq<Seq<char>> {
    vs.map_values(|v: NewVideo| v.youtube_id@)
}

/// The videos added from the entries, in order: an entry whose id is
/// already known (stored before, or added earlier in this run) is
/// skipped, and so is one whose date does not parse.
pub open spec fn added_videos(entries: Seq<Entry>, published: Seq<Option<i64>>, known: Seq<Seq<char>>) -> Seq<NewVideo>
    decreases entries.len(),
{
    if entries.len() == 0 {
        seq![]
    } else {
        let prev = added_videos(entries.drop_last(), published.drop_last(), known);
        let e = entries.last();
        if known.contains(e.id@) || video_ids(prev).contains(e.id@) {
            prev
        } else {
            match published.last() {
                Some(t) => prev.push(video_of(e, t)),
                None => prev,
            }
        }
    }
}

fn contains_string(v: &Vec<String>, s: &String) -> (b: bool)
    ensures
        b == v@.map_values(|x: String| x@).contains(s@),
{
    let ghost views = v@.map_values(|x: String| x@);
    for i in 0..v.len()
        invariant
            views == v@.map_values(|x: String| x@),
            forall|k: int| 0 <= k < i ==> views[k] != s@,
    {
        if v[i] == *s {
            assert(views[i as int] == s@);
            return true;
        }
    }
    false
}

/// The new videos of a feed given each entry's parsed date and the ids
/// already stored.
pub fn select_new_videos(entries: &Vec<Entry>, published: &Vec<Option<i64>>, known: &Vec<String>) -> (r: Vec<NewVideo>)
    requires
        published@.len() == entries@.len(),
    ensures
        r@ == added_videos(entries@, published@, known@.map_values(|x: String| x@)),
{
    let ghost kv = known@.map_values(|x: String| x@);
    let mut out: Vec<NewVideo> = Vec::new();
    let mut ids: Vec<String> = Vec::new();
    for i in 0..entries.len()
        invariant
            published@.len() == entries@.len(),
            kv == known@.map_values(|x: String| x@),
            out@ == added_videos(entries@.take(i as int), published@.take(i as int), kv),
            ids@.map_values(|x: String| x@) == video_ids(out@),
    {
        assert(entries@.take(i + 1).drop_last() == entries@.take(i as int));
        assert(published@.take(i + 1).drop_last() == published@.take(i as int));
        let e = &entries[i];
        if !contains_string(known, &e.id) && !contains_string(&ids, &e.id) {
            match published[i] {
                Some(t) => {
                    let v = NewVideo {
                        youtube_id: e.id.clone(),
                        title: e.title.clone(),
                        channel_name: e.author.name.clone(),
                        published_at: t,
                        thumbnail_url: e.media_group.thumbnail.url.clone(),
                        video_url: e.link.href.clone(),
                        watched: false,
                    };
                    let ghost before_out = out@;
                    let ghost before_ids = ids@;
                    ids.push(e.id.clone());
                    out.push(v);
                    assert(ids@.map_values(|x: String| x@) == before_ids.map_values(|x: String| x@).push(e.id@));
                    assert(video_ids(out@) == video_ids(before_out).push(e.id@));
                },
                None => {},
            }
        }
    }
    assert(entries@.take(entries@.len() as int) == entries@);
    assert(published@.take(published@.len() as int) == published@);
    out
}

/// The parsed publication time of each entry.
pub open spec fn published_dates(entries: Seq<Entry>) -> Seq<Option<i64>> {
    entries.map_values(|e: Entry| date_seconds(e.published@))
}

/// The new videos of a feed, given the ids already stored.
pub fn videos_to_add(entries: &Vec<Entry>, known: &Vec<String>) -> (r: Vec<NewVideo>)
    ensures
        r@ == added_videos(entries@, published_dates(entries@), known@.map_values(|x: String| x@)),
{
    let mut published: Vec<Option<i64>> = Vec::new();
    for i in 0..entries.len()
        invariant
            published@.len() == i,
            forall|k: int| 0 <= k < i ==> #[trigger] published@[k] == date_seconds(entries@[k].published@),
    {
        published.push(parse_published(entries[i].published.as_str()));
    }
    assert(published@ == published_dates(entries@));
    select_new_videos(entries, &published, known)
}

/// No video is added twice, and none that was already stored.
pub proof fn lemma_added_videos_are_new(entries: Seq<Entry>, published: Seq<Option<i64>>, known: Seq<Seq<char>>)
    requires
        published.len() == entries.len(),
    ensures
        video_ids(added_videos(entries, published, known)).no_duplicates(),
        forall|i: int| 0 <= i < added_videos(entries, published, known).len()
            ==> !known.contains(#[trigger] added_videos(entries, published, known)[i].youtube_id@),
    decreases entries.len(),
{
    if entries.len() > 0 {
        lemma_added_videos_are_new(entries.drop_last(), published.drop_last(), known);
        let prev = added_videos(entries.drop_last(), published.drop_last(), known);
        let e = entries.last();
        if !(known.contains(e.id@) || video_ids(prev).contains(e.id@)) {
            if let Some(t) = published.last() {
                let cur = prev.push(video_of(e, t));
                assert(video_ids(cur) == video_ids(prev).push(e.id@));
                assert forall|i: int| 0 <= i < cur.len() implies !known.contains(#[trigger] cur[i].youtube_id@) by {
                    if i < prev.len() {
                        assert(cur[i] == prev[i]);
                    }
                }
            }
        }
    }
}


// ----------------------------------------------------------------------
// Finding a channel's id on its video page
// ----------------------------------------------------------------------

/// A node of a parsed HTML page: an element with its name and attributes,
/// a text or a comment.
#[derive(Debug, Clone)]
pub enum HtmlNode {
    Element { name: String, attributes: Vec<(String, Option<String>)> },
    Text,
    Comment,
}

/// The value of the first attribute named `key`: `None` when there is no
/// such attribute, `Some(None)` when it has no value.
pub open spec fn attr_value(attrs: Seq<(String, Option<String>)>, key: Seq<char>) -> Option<Option<Seq<char>>>
    decreases attrs.len(),
{
    if attrs.len() == 0 {
        None
    } else if attrs[0].0@ == key {
        Some(match attrs[0].1 {
            Some(v) => Some(v@),
            None => None,
        })
    } else {
        attr_value(attrs.drop_first(), key)
    }
}

/// An element announcing the channel's RSS feed: `<link type="application/rss+xml"
/// title="RSS" href=...>`; gives its address.
pub open spec fn rss_href(n: HtmlNode) -> Option<Seq<char>> {
    match n {
        HtmlNode::Element { name, attributes, .. } => link_href(
            name@,
            attr_value(attributes@, "type"@),
            attr_value(attributes@, "title"@),
            attr_value(attributes@, "href"@),
        ),
        _ => None,
    }
}

/// The address of an element named `name` whose `type`, `title` and `href`
/// attributes are as given, when it is a `<link type="application/rss+xml"
/// title="RSS" href=...>`.
pub open spec fn link_href(
    name: Seq<char>,
    ty: Option<Option<Seq<char>>>,
    title: Option<Option<Seq<char>>>,
    href: Option<Option<Seq<char>>>,
) -> Option<Seq<char>> {
    if name == "link"@ && ty == Some(Some("application/rss+xml"@)) && title == Some(Some("RSS"@)) {
        match href {
            Some(Some(h)) => Some(h),
            _ => None,
        }
    } else {
        None
    }
}

/// The decoded query pairs of an address (`url::Url::parse` then
/// `query_pairs()`), or none when the address does not parse.
pub uninterp spec fn url_query_pairs(href: Seq<char>) -> Option<Seq<(Seq<char>, Seq<char>)>>;

/// The views of query pairs.
pub open spec fn pair_views(pairs: Seq<(String, String)>) -> Seq<(Seq<char>, Seq<char>)> {
    pairs.map_values(|p: (String, String)| (p.0@, p.1@))
}

/// `url::Url::parse(href)` then `query_pairs()`, each pair converted to
/// owned strings: claims the result is `url_query_pairs` of the address.
#[verifier::external_body]
fn query_pairs_of(href: &str) -> (r: Option<Vec<(String, String)>>)
    ensures
        match (r, url_query_pairs(href@)) {
            (None, None) => true,
            (Some(v), Some(w)) => pair_views(v@) == w,
            _ => false,
        },
{
    match url::Url::parse(href) {
        Ok(url) => Some(url.query_pairs().map(|(k, v)| (k.into_owned(), v.into_owned())).collect()),
        Err(_) => None,
    }
}

/// The value of the first pair named `key`.
pub open spec fn first_value(pairs: Seq<(Seq<char>, Seq<char>)>, key: Seq<char>) -> Option<Seq<char>>
    decreases pairs.len(),
{
    if pairs.len() == 0 {
        None
    } else if pairs[0].0 == key {
        Some(pairs[0].1)
    } else {
        first_value(pairs.drop_first(), key)
    }
}

/// The `channel_id` query value of an address: `None` when the address
/// does not parse, `Some(None)` when it has no such parameter.
pub open spec fn url_channel_id(href: Seq<char>) -> Option<Option<Seq<char>>> {
    match url_query_pairs(href) {
        None => None,
        Some(pairs) => Some(first_value(pairs, "channel_id"@)),
    }
}

fn channel_id_of_url(href: &str) -> (r: Option<Option<String>>)
    ensures
        match (r, url_channel_id(href@)) {
            (None, None) => true,
            (Some(None), Some(None)) => true,
            (Some(Some(v)), Some(Some(w))) => v@ == w,
            _ => false,
        },
{
    let pairs = match query_pairs_of(href) {
        None => return None,
        Some(p) => p,
    };
    let key = "channel_id".to_owned();
    let ghost pv = pair_views(pairs@);
    let mut i: usize = 0;
    assert(pv.skip(0) == pv);
    while i < pairs.len()
        invariant
            pv == pair_views(pairs@),
            url_query_pairs(href@) == Some(pv),
            key@ == "channel_id"@,
            i <= pairs@.len(),
            first_value(pv, "channel_id"@) == first_value(pv.skip(i as int), "channel_id"@),
        decreases pairs@.len() - i,
    {
        assert(pv.skip(i as int).drop_first() == pv.skip(i + 1));
        assert(pv.skip(i as int)[0] == (pairs@[i as int].0@, pairs@[i as int].1@));
        if pairs[i].0 == key {
            assert(first_value(pv.skip(i as int), "channel_id"@) == Some(pairs@[i as int].1@));
            return Some(Some(pairs[i].1.clone()));
        }
        i = i + 1;
    }
    Some(None)
}

/// The outcome of searching part of a page.
#[derive(Debug, Clone, PartialEq, Eq)]
pub enum ChannelSearch {
    /// Nothing found yet: go on.
    NotFound,
    /// The channel id.
    Found(String),
    /// An RSS link's address does not parse; the search stops.
    BadAddress,
}

/// What checking one node gives.
pub open spec fn node_verdict(n: HtmlNode) -> Option<Option<Seq<char>>> {
    href_verdict(rss_href(n))
}

/// What an RSS link's address (if any) gives: `None` for an address that
/// does not parse, `Some(Some(id))` for one with a `channel_id`, else
/// `Some(None)`.
pub open spec fn href_verdict(href: Option<Seq<char>>) -> Option<Option<Seq<char>>> {
    match href {
        None => Some(None),
        Some(h) => match url_channel_id(h) {
            None => None,
            Some(None) => Some(None),
            Some(Some(id)) => Some(Some(id)),
        },
    }
}

fn find_attr(attrs: &Vec<(String, Option<String>)>, key: &str) -> (r: Option<Option<String>>)
    ensures
        match (r, attr_value(attrs@, key@)) {
            (None, None) => true,
            (Some(None), Some(None)) => true,
            (Some(Some(v)), Some(Some(w))) => v@ == w,
            _ => false,
        },
{
    let k = key.to_owned();
    let mut i: usize = 0;
    assert(attrs@.skip(0) == attrs@);
    while i < attrs.len()
        invariant
            k@ == key@,
            i <= attrs@.len(),
            attr_value(attrs@, key@) == attr_value(attrs@.skip(i as int), key@),
        decreases attrs@.len() - i,
    {
        assert(attrs@.skip(i as int).drop_first() == attrs@.skip(i + 1));
        if attrs[i].0 == k {
            return match &attrs[i].1 {
                Some(v) => Some(Some(v.clone())),
                None => Some(None),
            };
        }
        i = i + 1;
    }
    None
}

fn text_is(a: &Option<Option<String>>, b: &str) -> (r: bool)
    ensures
        r == (a matches Some(Some(v)) && v@ == b@),
{
    match a {
        Some(Some(v)) => *v == b.to_owned(),
        _ => false,
    }
}

fn node_href(n: &HtmlNode) -> (r: Option<String>)
    ensures
        match (r, rss_href(*n)) {
            (None, None) => true,
            (Some(v), Some(w)) => v@ == w,
            _ => false,
        },
{
    match n {
        HtmlNode::Element { name, attributes, .. } => {
            if *name == "link".to_owned() && text_is(&find_attr(attributes, "type"), "application/rss+xml")
                && text_is(&find_attr(attributes, "title"), "RSS") {
                match find_attr(attributes, "href") {
                    Some(Some(h)) => Some(h),
                    _ => None,
                }
            } else {
                None
            }
        },
        _ => None,
    }
}

/// The spec outcome of an executable search outcome.
pub open spec fn search_view(r: ChannelSearch) -> Option<Option<Seq<char>>> {
    match r {
        ChannelSearch::NotFound => Some(None),
        ChannelSearch::Found(s) => Some(Some(s@)),
        ChannelSearch::BadAddress => None,
    }
}

/// A parsed HTML node with its subtree: an element with its name,
/// attributes and children, a text or a comment.
#[derive(Debug)]
pub enum HtmlTree {
    Element { name: String, attributes: Vec<(String, Option<String>)>, children: Vec<HtmlTree> },
    Text,
    Comment,
}

#[verifier::external_type_specification]
#[verifier::external_body]
pub struct ExHtmlNode(html_parser::Node);

impl From<&Node> for HtmlTree {
    /// `html_parser::Node` converted one for one: an element's name and
    /// attributes (in the order the parser's map yields them) and its
    /// children, converted in turn.
    #[verifier::external_body]
    fn from(n: &Node) -> (r: HtmlTree) {
        match n {
            Node::Element(e) => HtmlTree::Element {
                name: e.name.clone(),
                attributes: e.attributes.clone().into_iter().collect(),
                children: e.children.iter().map(HtmlTree::from).collect(),
            },
            Node::Text(_) => HtmlTree::Text,
            Node::Comment(_) => HtmlTree::Comment,
        }
    }
}

/// What a parsed node holds: an element's name, its attributes as a map
/// from name to value, and its children; a text; a comment.
pub enum HtmlView {
    Element { name: Seq<char>, attributes: Map<Seq<char>, Option<Seq<char>>>, children: Seq<HtmlView> },
    Text,
    Comment,
}

/// The top-level nodes `html_parser::Dom::parse` reads from a body, each
/// with its subtree, or none when the parser refuses the body.
pub uninterp spec fn html_forest_of(body: Seq<char>) -> Option<Seq<HtmlView>>;

/// The value of the attribute named `key` in an attribute map.
pub open spec fn view_attr(m: Map<Seq<char>, Option<Seq<char>>>, key: Seq<char>) -> Option<Option<Seq<char>>> {
    if m.contains_key(key) {
        Some(m[key])
    } else {
        None
    }
}

/// Looking up any attribute in the list gives what the map gives.
pub open spec fn attrs_agree(a: Seq<(String, Option<String>)>, m: Map<Seq<char>, Option<Seq<char>>>) -> bool {
    forall|k: Seq<char>| #[trigger] attr_value(a, k) == view_attr(m, k)
}

/// A node without its subtree holds what a parsed node holds.
pub open spec fn node_matches(n: HtmlNode, v: HtmlView) -> bool {
    match (n, v) {
        (HtmlNode::Element { name, attributes }, HtmlView::Element { name: vn, attributes: vm, .. }) =>
            name@ == vn && attrs_agree(attributes@, vm),
        (HtmlNode::Text, HtmlView::Text) => true,
        (HtmlNode::Comment, HtmlView::Comment) => true,
        _ => false,
    }
}

/// A tree holds what a parsed node holds, subtree by subtree.
pub open spec fn tree_matches(t: HtmlTree, v: HtmlView) -> bool
    decreases t,
{
    match (t, v) {
        (HtmlTree::Element { name, attributes, children }, HtmlView::Element { name: vn, attributes: vm, children: vc }) => {
            &&& name@ == vn
            &&& attrs_agree(attributes@, vm)
            &&& children@.len() == vc.len()
            &&& forall|i: int| 0 <= i < vc.len() ==> tree_matches(#[trigger] children@[i], vc[i])
        },
        (HtmlTree::Text, HtmlView::Text) => true,
        (HtmlTree::Comment, HtmlView::Comment) => true,
        _ => false,
    }
}

/// Trees that hold what the parsed nodes hold, one for one.
pub open spec fn forest_matches(f: Seq<HtmlTree>, w: Seq<HtmlView>) -> bool {
    &&& f.len() == w.len()
    &&& forall|i: int| 0 <= i < f.len() ==> tree_matches(#[trigger] f[i], w[i])
}

/// `html_parser::Dom::parse(body)`, each top-level node converted to a
/// tree: claims the trees hold what `html_forest_of(body)` holds.
#[verifier::external_body]
fn parse_html_forest(body: &str) -> (r: Option<Vec<HtmlTree>>)
    ensures
        match (r, html_forest_of(body@)) {
            (None, None) => true,
            (Some(f), Some(w)) => forest_matches(f@, w),
            _ => false,
        },
{
    Dom::parse(body).ok().map(|dom| dom.children.iter().map(HtmlTree::from).collect())
}

/// A tree's own node, without its subtree.
pub open spec fn node_of(t: HtmlTree) -> HtmlNode {
    match t {
        HtmlTree::Element { name, attributes, .. } => HtmlNode::Element { name, attributes },
        HtmlTree::Text => HtmlNode::Text,
        HtmlTree::Comment => HtmlNode::Comment,
    }
}

/// The nodes of a tree in the order of a depth-first walk that takes the
/// node first and then its children, the last child first.
pub open spec fn tree_walk(t: HtmlTree) -> Seq<HtmlNode>
    decreases t, 1int, 0int,
{
    seq![node_of(t)] + match t {
        HtmlTree::Element { children, .. } => kids_walk(t, children@.len() as int),
        _ => seq![],
    }
}

/// The walks of the first `k` children of a tree, the last of them first.
pub open spec fn kids_walk(t: HtmlTree, k: int) -> Seq<HtmlNode>
    decreases t, 0int, k,
{
    match t {
        HtmlTree::Element { children, .. } => if k <= 0 || k > children@.len() {
            seq![]
        } else {
            tree_walk(children@[k - 1]) + kids_walk(t, k - 1)
        },
        _ => seq![],
    }
}

/// The walks of the first `k` top-level trees, the last of them first.
pub open spec fn forest_walk(f: Seq<HtmlTree>, k: int) -> Seq<HtmlNode>
    decreases k,
{
    if k <= 0 || k > f.len() {
        seq![]
    } else {
        tree_walk(f[k - 1]) + forest_walk(f, k - 1)
    }
}

/// The same walk over parsed nodes.
pub open spec fn view_walk(v: HtmlView) -> Seq<HtmlView>
    decreases v, 1int, 0int,
{
    seq![v] + match v {
        HtmlView::Element { children, .. } => view_kids_walk(v, children.len() as int),
        _ => seq![],
    }
}

/// The walks of the first `k` children of a parsed node, the last first.
pub open spec fn view_kids_walk(v: HtmlView, k: int) -> Seq<HtmlView>
    decreases v, 0int, k,
{
    match v {
        HtmlView::Element { children, .. } => if k <= 0 || k > children.len() {
            seq![]
        } else {
            view_walk(children[k - 1]) + view_kids_walk(v, k - 1)
        },
        _ => seq![],
    }
}

/// The walks of the first `k` top-level parsed nodes, the last first.
pub open spec fn view_forest_walk(w: Seq<HtmlView>, k: int) -> Seq<HtmlView>
    decreases k,
{
    if k <= 0 || k > w.len() {
        seq![]
    } else {
        view_walk(w[k - 1]) + view_forest_walk(w, k - 1)
    }
}

/// Appends the walk of a tree to `out`.
fn flatten_tree(t: HtmlTree, out: &mut Vec<HtmlNode>)
    ensures
        final(out)@ == old(out)@ + tree_walk(t),
    decreases t,
{
    let ghost t0 = t;
    match t {
        HtmlTree::Element { name, attributes, mut children } => {
            out.push(HtmlNode::Element { name, attributes });
            let ghost start = out@;
            let n = children.len();
            let mut k = n;
            while k > 0
                invariant
                    t0 == t,
                    t0 is Element,
                    k <= n == t0->children@.len(),
                    children@ == t0->children@.take(k as int),
                    out@ + kids_walk(t0, k as int) == start + kids_walk(t0, n as int),
                decreases k,
            {
                let c = children.pop().unwrap();
                assert(c == t0->children@[k - 1]);
                assert(children@ == t0->children@.take(k - 1));
                proof {
                    assert(decreases_to!(t0 => t0->children@[k - 1]));
                }
                flatten_tree(c, out);
                k = k - 1;
            }
        },
        HtmlTree::Text => out.push(HtmlNode::Text),
        HtmlTree::Comment => out.push(HtmlNode::Comment),
    }
}

/// The nodes of a page's trees in the order of the walk: the last
/// top-level tree first, each node before its children, the last child
/// first.
pub fn flatten_nodes(roots: Vec<HtmlTree>) -> (r: Vec<HtmlNode>)
    ensures
        r@ == forest_walk(roots@, roots@.len() as int),
{
    let ghost f = roots@;
    let mut roots = roots;
    let mut out: Vec<HtmlNode> = Vec::new();
    let n = roots.len();
    let mut k = n;
    while k > 0
        invariant
            k <= n == f.len(),
            roots@ == f.take(k as int),
            out@ + forest_walk(f, k as int) == forest_walk(f, n as int),
        decreases k,
    {
        let t = roots.pop().unwrap();
        assert(t == f[k - 1]);
        assert(roots@ == f.take(k - 1));
        flatten_tree(t, &mut out);
        k = k - 1;
    }
    out
}

/// Searching nodes in order: the first RSS link whose address does not
/// parse (`None`) or has a `channel_id` (`Some(Some(id))`) decides;
/// `Some(None)` when no link does.
pub open spec fn search_nodes(nodes: Seq<HtmlNode>) -> Option<Option<Seq<char>>>
    decreases nodes.len(),
{
    if nodes.len() == 0 {
        Some(None)
    } else {
        match node_verdict(nodes[0]) {
            Some(None) => search_nodes(nodes.drop_first()),
            other => other,
        }
    }
}

/// Searches the nodes of a channel's video page, in order, for the channel
/// id announced by an RSS link: the first link whose address has a
/// `channel_id` wins, and an unparsable address stops the search.
pub fn find_channel_id(nodes: &Vec<HtmlNode>) -> (r: ChannelSearch)
    ensures
        search_view(r) == search_nodes(nodes@),
{
    let mut i: usize = 0;
    assert(nodes@.skip(0) == nodes@);
    while i < nodes.len()
        invariant
            i <= nodes@.len(),
            search_nodes(nodes@) == search_nodes(nodes@.skip(i as int)),
        decreases nodes@.len() - i,
    {
        assert(nodes@.skip(i as int).drop_first() == nodes@.skip(i + 1));
        assert(nodes@.skip(i as int)[0] == nodes@[i as int]);
        match node_href(&nodes[i]) {
            Some(h) => match channel_id_of_url(h.as_str()) {
                None => return ChannelSearch::BadAddress,
                Some(Some(id)) => return ChannelSearch::Found(id),
                Some(None) => {},
            },
            None => {},
        }
        i = i + 1;
    }
    ChannelSearch::NotFound
}

/// What checking one parsed node gives.
pub open spec fn view_verdict(v: HtmlView) -> Option<Option<Seq<char>>> {
    match v {
        HtmlView::Element { name, attributes, .. } => href_verdict(
            link_href(
                name,
                view_attr(attributes, "type"@),
                view_attr(attributes, "title"@),
                view_attr(attributes, "href"@),
            ),
        ),
        _ => Some(None),
    }
}

/// Searching parsed nodes in order, as `search_nodes` does.
pub open spec fn search_views(s: Seq<HtmlView>) -> Option<Option<Seq<char>>>
    decreases s.len(),
{
    if s.len() == 0 {
        Some(None)
    } else {
        match view_verdict(s[0]) {
            Some(None) => search_views(s.drop_first()),
            other => other,
        }
    }
}

/// Nodes that hold what parsed nodes hold, one for one.
pub open spec fn walks_match(a: Seq<HtmlNode>, b: Seq<HtmlView>) -> bool {
    &&& a.len() == b.len()
    &&& forall|i: int| 0 <= i < a.len() ==> node_matches(#[trigger] a[i], b[i])
}

proof fn lemma_walks_concat(a1: Seq<HtmlNode>, b1: Seq<HtmlView>, a2: Seq<HtmlNode>, b2: Seq<HtmlView>)
    requires
        walks_match(a1, b1),
        walks_match(a2, b2),
    ensures
        walks_match(a1 + a2, b1 + b2),
{
    assert forall|i: int| 0 <= i < (a1 + a2).len() implies node_matches(#[trigger] (a1 + a2)[i], (b1 + b2)[i]) by {
        if i < a1.len() {
            assert(node_matches(a1[i], b1[i]));
        } else {
            assert(node_matches(a2[i - a1.len()], b2[i - a1.len()]));
        }
    }
}

proof fn lemma_tree_walk(t: HtmlTree, v: HtmlView)
    requires
        tree_matches(t, v),
    ensures
        walks_match(tree_walk(t), view_walk(v)),
    decreases t, 1int, 0int,
{
    assert(node_matches(node_of(t), v));
    assert(walks_match(seq![node_of(t)], seq![v]));
    match t {
        HtmlTree::Element { children, .. } => {
            lemma_kids_walk(t, v, children@.len() as int);
            lemma_walks_concat(seq![node_of(t)], seq![v], kids_walk(t, children@.len() as int),
                view_kids_walk(v, children@.len() as int));
        },
        _ => {
            lemma_walks_concat(seq![node_of(t)], seq![v], seq![], seq![]);
            assert(seq![node_of(t)] + Seq::<HtmlNode>::empty() == seq![node_of(t)]);
            assert(seq![v] + Seq::<HtmlView>::empty() == seq![v]);
        },
    }
}

proof fn lemma_kids_walk(t: HtmlTree, v: HtmlView, k: int)
    requires
        tree_matches(t, v),
    ensures
        walks_match(kids_walk(t, k), view_kids_walk(v, k)),
    decreases t, 0int, k,
{
    match t {
        HtmlTree::Element { children, .. } => {
            if 0 < k <= children@.len() {
                let vc = v->children;
                assert(tree_matches(children@[k - 1], vc[k - 1]));
                assert(decreases_to!(t => children@[k - 1]));
                lemma_tree_walk(children@[k - 1], vc[k - 1]);
                lemma_kids_walk(t, v, k - 1);
                lemma_walks_concat(tree_walk(children@[k - 1]), view_walk(vc[k - 1]), kids_walk(t, k - 1),
                    view_kids_walk(v, k - 1));
            }
        },
        _ => {},
    }
}

proof fn lemma_forest_walk(f: Seq<HtmlTree>, w: Seq<HtmlView>, k: int)
    requires
        forest_matches(f, w),
    ensures
        walks_match(forest_walk(f, k), view_forest_walk(w, k)),
    decreases k,
{
    if 0 < k <= f.len() {
        assert(tree_matches(f[k - 1], w[k - 1]));
        lemma_tree_walk(f[k - 1], w[k - 1]);
        lemma_forest_walk(f, w, k - 1);
        lemma_walks_concat(tree_walk(f[k - 1]), view_walk(w[k - 1]), forest_walk(f, k - 1), view_forest_walk(w, k - 1));
    }
}

proof fn lemma_search_matches(a: Seq<HtmlNode>, b: Seq<HtmlView>)
    requires
        walks_match(a, b),
    ensures
        search_nodes(a) == search_views(b),
    decreases a.len(),
{
    if a.len() > 0 {
        assert(node_matches(a[0], b[0]));
        match (a[0], b[0]) {
            (HtmlNode::Element { attributes, .. }, HtmlView::Element { attributes: vm, .. }) => {
                assert(attr_value(attributes@, "type"@) == view_attr(vm, "type"@));
                assert(attr_value(attributes@, "title"@) == view_attr(vm, "title"@));
                assert(attr_value(attributes@, "href"@) == view_attr(vm, "href"@));
            },
            _ => {},
        }
        assert(node_verdict(a[0]) == view_verdict(b[0]));
        assert(walks_match(a.drop_first(), b.drop_first())) by {
            assert forall|i: int| 0 <= i < a.drop_first().len() implies node_matches(
                #[trigger] a.drop_first()[i],
                b.drop_first()[i],
            ) by {
                assert(node_matches(a[i + 1], b[i + 1]));
            }
        }
        lemma_search_matches(a.drop_first(), b.drop_first());
    }
}

/// Reads a channel's video page and searches it for the channel id
/// announced by its RSS link: the nodes are searched in the order of the
/// walk (`flatten_nodes`); `None` when the page does not parse.
pub fn channel_id_from_body(body: &str) -> (r: Option<ChannelSearch>)
    ensures
        match (r, html_forest_of(body@)) {
            (None, None) => true,
            (Some(c), Some(w)) => search_view(c) == search_views(view_forest_walk(w, w.len() as int)),
            _ => false,
        },
{
    match parse_html_forest(body) {
        None => None,
        Some(roots) => {
            let ghost f = roots@;
            let nodes = flatten_nodes(roots);
            let c = find_channel_id(&nodes);
            proof {
                let w = html_forest_of(body@).unwrap();
                lemma_forest_walk(f, w, f.len() as int);
                lemma_search_matches(nodes@, view_forest_walk(w, w.len() as int));
            }
            Some(c)
        },
    }
}


/// `v` is the stored form of entry `e` with parsed publication time `pk`.
pub open spec fn made_from(v: NewVideo, e: Entry, pk: Option<i64>) -> bool {
    &&& v.youtube_id == e.id
    &&& v.title == e.title
    &&& v.channel_name == e.author.name
    &&& v.thumbnail_url == e.media_group.thumbnail.url
    &&& v.video_url == e.link.href
    &&& pk == Some(v.published_at)
    &&& !v.watched
}

/// Every added video comes from one feed entry: it carries that entry's
/// id, title, author name, thumbnail, link and parsed publication time,
/// and is not yet watched.
pub proof fn lemma_added_videos_come_from_entries(
    entries: Seq<Entry>,
    published: Seq<Option<i64>>,
    known: Seq<Seq<char>>,
)
    requires
        published.len() == entries.len(),
    ensures
        forall|i: int| 0 <= i < added_videos(entries, published, known).len() ==> exists|k: int|
            0 <= k < entries.len() && made_from(
                #[trigger] added_videos(entries, published, known)[i],
                entries[k],
                published[k],
            ),
    decreases entries.len(),
{
    if entries.len() > 0 {
        let ei = entries.drop_last();
        let pi = published.drop_last();
        lemma_added_videos_come_from_entries(ei, pi, known);
        let prev = added_videos(ei, pi, known);
        let cur = added_videos(entries, published, known);
        assert forall|i: int| 0 <= i < cur.len() implies exists|k: int|
            0 <= k < entries.len() && made_from(#[trigger] cur[i], entries[k], published[k]) by {
            if i < prev.len() {
                assert(cur[i] == prev[i]);
                let k = choose|k: int| 0 <= k < ei.len() && made_from(#[trigger] prev[i], ei[k], pi[k]);
                assert(entries[k] == ei[k] && published[k] == pi[k]);
                assert(made_from(cur[i], entries[k], published[k]));
            } else {
                let k = entries.len() - 1;
                assert(entries[k] == entries.last());
                assert(published[k] == published.last());
                assert(made_from(cur[i], entries[k], published[k]));
            }
        }
    }
}


/// Every entry whose date parses and whose id is not already stored gives
/// a video with its id.
pub proof fn lemma_new_entries_are_added(entries: Seq<Entry>, published: Seq<Option<i64>>, known: Seq<Seq<char>>)
    requires
        published.len() == entries.len(),
    ensures
        forall|k: int|
            0 <= k < entries.len() && published[k] is Some && !known.contains(#[trigger] entries[k].id@)
                ==> video_ids(added_videos(entries, published, known)).contains(entries[k].id@),
    decreases entries.len(),
{
    if entries.len() > 0 {
        let ei = entries.drop_last();
        let pi = published.drop_last();
        lemma_new_entries_are_added(ei, pi, known);
        let prev = added_videos(ei, pi, known);
        let cur = added_videos(entries, published, known);
        let e = entries.last();
        assert(cur == prev || cur == prev.push(video_of(e, published.last().unwrap())));
        assert forall|x: Seq<char>| video_ids(prev).contains(x) implies video_ids(cur).contains(x) by {
            if cur != prev {
                let j = choose|j: int| 0 <= j < video_ids(prev).len() && video_ids(prev)[j] == x;
                assert(video_ids(cur)[j] == x);
            }
        }
        assert forall|k: int|
            0 <= k < entries.len() && published[k] is Some && !known.contains(#[trigger] entries[k].id@)
                implies video_ids(cur).contains(entries[k].id@) by {
            if k < ei.len() {
                assert(entries[k] == ei[k] && published[k] == pi[k]);
                assert(video_ids(prev).contains(ei[k].id@));
            } else {
                assert(entries[k] == e && published[k] == published.last());
                if !video_ids(prev).contains(e.id@) {
                    assert(cur == prev.push(video_of(e, published.last().unwrap())));
                    assert(video_ids(cur)[prev.len() as int] == e.id@);
                }
            }
        }
    }
}

} // verus!
