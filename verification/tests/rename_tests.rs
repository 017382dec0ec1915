use neorg_ls::document::Document;
use neorg_ls::neorg::will_rename_files;
use neorg_ls::range::{Position, Range};
use neorg_ls::session::Session;
use neorg_ls::workspace::Workspace;

fn ws_session() -> Session {
    Session::with_workspace(Some(Workspace {
        name: String::from("ws"),
        path: String::from("file:///ws/"),
    }))
}

#[test]
fn rename_rewrites_only_the_destination_span() {
    let session = ws_session();
    let uri = String::from("file:///ws/index.norg");
    let corpus = vec![(uri.clone(), Document::new("see {https://old} now"))];
    // the rename request carries the URI in its canonical serialization
    let renames = vec![(String::from("https://old/"), String::from("https://new/"))];
    let groups = will_rename_files(&session, &corpus, &renames);
    assert_eq!(groups.len(), 1);
    assert_eq!(groups[0].0, uri);
    assert_eq!(groups[0].1.len(), 1);
    let edit = &groups[0].1[0];
    // only the span between the braces is replaced
    assert_eq!(edit.range, Range::new(Position::new(0, 5), Position::new(0, 16)));
    assert_eq!(edit.new_text, "https://new/");
}

#[test]
fn rename_leaves_scoped_destinations_untouched() {
    let session = ws_session();
    let uri = String::from("file:///ws/index.norg");
    let corpus = vec![(uri.clone(), Document::new("{:b:}"))];
    let renames = vec![(String::from("file:///ws/b.norg"), String::from("file:///ws/c.norg"))];
    let groups = will_rename_files(&session, &corpus, &renames);
    assert!(groups.is_empty());
}

#[test]
fn rename_skips_unrelated_documents() {
    let session = ws_session();
    let with_link = String::from("file:///ws/a.norg");
    let without = String::from("file:///ws/b.norg");
    let corpus = vec![
        (without.clone(), Document::new("no links at all")),
        (with_link.clone(), Document::new("{https://x/p}")),
    ];
    let renames = vec![(String::from("https://x/p"), String::from("https://y/q"))];
    let groups = will_rename_files(&session, &corpus, &renames);
    assert_eq!(groups.len(), 1);
    assert_eq!(groups[0].0, with_link);
    assert_eq!(groups[0].1[0].new_text, "https://y/q");
}
