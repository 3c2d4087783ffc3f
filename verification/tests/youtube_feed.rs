use music_manager::youtube::{
    channel_id_from_body, find_channel_id, flatten_nodes, HtmlTree, select_new_videos, videos_to_add, Author,
    ChannelSearch, Entry, HtmlNode, Link, MediaCommunity, MediaContent, MediaGroup, MediaStarRating, MediaStatistics,
    MediaThumbnail,
};

fn entry(id: &str, published: &str) -> Entry {
    Entry {
        id: id.to_string(),
        video_id: id.to_string(),
        channel_id: "UC1".to_string(),
        title: format!("title {}", id),
        link: Link { rel: "alternate".to_string(), href: format!("https://youtu.be/{}", id) },
        author: Author { name: "Chan".to_string(), uri: "https://youtube.com/c".to_string() },
        published: published.to_string(),
        updated: published.to_string(),
        media_group: MediaGroup {
            title: "t".to_string(),
            content: MediaContent {
                url: "u".to_string(),
                content_type: "x".to_string(),
                width: "1".to_string(),
                height: "1".to_string(),
            },
            thumbnail: MediaThumbnail { url: format!("thumb-{}", id), width: "1".to_string(), height: "1".to_string() },
            description: "d".to_string(),
            community: MediaCommunity {
                star_rating: MediaStarRating {
                    count: "0".to_string(),
                    average: "0".to_string(),
                    min: "1".to_string(),
                    max: "5".to_string(),
                },
                statistics: MediaStatistics { views: "3".to_string() },
            },
        },
    }
}

#[test]
fn new_videos_skip_known_duplicates_and_bad_dates() {
    let entries = vec![
        entry("a", "2024-01-01T00:00:00+00:00"),
        entry("b", "not a date"),
        entry("c", "2024-01-02T00:00:00+00:00"),
        entry("a", "2024-01-03T00:00:00+00:00"),
        entry("d", "1970-01-01T00:01:00Z"),
    ];
    let known = vec!["c".to_string()];
    let added = videos_to_add(&entries, &known);
    let ids: Vec<&str> = added.iter().map(|v| v.youtube_id.as_str()).collect();
    assert_eq!(ids, vec!["a", "d"]);
    assert_eq!(added[0].published_at, 1704067200);
    assert_eq!(added[0].thumbnail_url, "thumb-a");
    assert_eq!(added[1].published_at, 60);
    assert!(!added[1].watched);
}

#[test]
fn select_new_videos_with_given_dates() {
    let entries = vec![entry("x", ""), entry("y", "")];
    let added = select_new_videos(&entries, &vec![None, Some(5)], &vec![]);
    assert_eq!(added.len(), 1);
    assert_eq!(added[0].youtube_id, "y");
    assert_eq!(added[0].channel_name, "Chan");
}

fn element(name: &str, attrs: &[(&str, Option<&str>)]) -> HtmlNode {
    HtmlNode::Element {
        name: name.to_string(),
        attributes: attrs.iter().map(|(k, v)| (k.to_string(), v.map(|s| s.to_string()))).collect(),
    }
}

const RSS_HREF: &str = "https://www.youtube.com/feeds/videos.xml?channel_id=UC1E-JS8L0j1Ei70D9VEFrPQ";

#[test]
fn channel_id_found_in_rss_link() {
    let nodes = vec![
        element("html", &[]),
        element("body", &[]),
        element("head", &[]),
        element(
            "link",
            &[
                ("rel", Some("alternate")),
                ("type", Some("application/rss+xml")),
                ("title", Some("RSS")),
                ("href", Some(RSS_HREF)),
            ],
        ),
    ];
    assert_eq!(find_channel_id(&nodes), ChannelSearch::Found("UC1E-JS8L0j1Ei70D9VEFrPQ".to_string()));
}

#[test]
fn channel_id_missing_or_bad() {
    assert_eq!(find_channel_id(&vec![HtmlNode::Text, HtmlNode::Comment]), ChannelSearch::NotFound);
    let bad = vec![element(
        "link",
        &[("type", Some("application/rss+xml")), ("title", Some("RSS")), ("href", Some("not a url"))],
    )];
    assert_eq!(find_channel_id(&bad), ChannelSearch::BadAddress);
    let no_id = vec![element(
        "link",
        &[("type", Some("application/rss+xml")), ("title", Some("RSS")), ("href", Some("https://x.org/feed?a=1"))],
    )];
    assert_eq!(find_channel_id(&no_id), ChannelSearch::NotFound);
}

#[test]
fn channel_id_read_from_page_body() {
    let body = format!(
        "<html><head><title>Videos</title><link rel=\"alternate\" type=\"application/rss+xml\" title=\"RSS\" href=\"{}\"></head><body><p>hi</p></body></html>",
        RSS_HREF
    );
    assert_eq!(
        channel_id_from_body(&body),
        Some(ChannelSearch::Found("UC1E-JS8L0j1Ei70D9VEFrPQ".to_string()))
    );
    assert_eq!(channel_id_from_body("<html><body><p>nothing here</p></body></html>"), Some(ChannelSearch::NotFound));
}

#[test]
fn later_top_level_link_wins() {
    let body = "<link type=\"application/rss+xml\" title=\"RSS\" href=\"https://a.org/?channel_id=FIRST\"><link type=\"application/rss+xml\" title=\"RSS\" href=\"https://a.org/?channel_id=SECOND\">";
    assert_eq!(channel_id_from_body(body), Some(ChannelSearch::Found("SECOND".to_string())));
}

fn tree(name: &str, children: Vec<HtmlTree>) -> HtmlTree {
    HtmlTree::Element { name: name.to_string(), attributes: vec![], children }
}

fn names(nodes: &[HtmlNode]) -> Vec<String> {
    nodes
        .iter()
        .map(|n| match n {
            HtmlNode::Element { name, .. } => name.clone(),
            HtmlNode::Text => "#text".to_string(),
            HtmlNode::Comment => "#comment".to_string(),
        })
        .collect()
}

#[test]
fn flatten_walks_last_root_first_and_last_child_first() {
    let roots = vec![
        tree("a", vec![tree("b", vec![HtmlTree::Text]), tree("c", vec![])]),
        tree("d", vec![HtmlTree::Comment]),
    ];
    let nodes = flatten_nodes(roots);
    assert_eq!(names(&nodes), vec!["d", "#comment", "a", "c", "b", "#text"]);
}
