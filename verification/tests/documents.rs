use knot::doc_routes::to_response;
use knot::docs::{DocChange, DocStoreError, DocTable, Document};
use knot::ids::Uuid;
use knot::placement::{create_gap, last_gap, move_gap, Gap};
use knot::time::Timestamp;
use knot::tree::{creates_cycle, descendant_ids, is_at_or_below, is_in_tree, TreeLink};

const WS: Uuid = 100;
const USER: Uuid = 200;

fn now() -> Timestamp {
    Timestamp::from_micros(1_000_000).unwrap()
}

/// Adds a document under an identifier that the table does not hold.
fn create(
    store: &mut DocTable,
    parent: Option<Uuid>,
    title: &str,
    sort_key: &str,
) -> Result<Document, DocStoreError> {
    let mut id: Uuid = 1;
    while !store.is_unused(id) || parent == Some(id) {
        id += 1;
    }
    store.create(id, WS, parent, title, sort_key, USER, now())
}

#[test]
fn create_get_list_lifecycle() {
    let mut store = DocTable::new();
    let doc = create(&mut store, None, "Hello", "m").unwrap();
    assert_eq!(doc.title, "Hello");
    assert_eq!(doc.workspace_id, WS);
    let got = store.get(doc.id).unwrap();
    assert_eq!(got.id, doc.id);
    assert_eq!(store.list_alive(WS).len(), 1);
    assert!(store.get(999).is_none());
}

#[test]
fn rename_updates_title_and_icon() {
    let mut store = DocTable::new();
    let doc = create(&mut store, None, "Old", "m").unwrap();
    let new = store.rename(WS, doc.id, USER, "New", Some("📄"), now()).unwrap();
    assert_eq!(new.title, "New");
    assert_eq!(new.icon.as_deref(), Some("📄"));
    // Without an icon the old one stays.
    let again = store.rename(WS, doc.id, USER, "Newer", None, now()).unwrap();
    assert_eq!(again.icon.as_deref(), Some("📄"));
}

#[test]
fn a_restored_document_is_listed_where_it_was() {
    let mut store = DocTable::new();
    let a = create(&mut store, None, "A", "m").unwrap();
    let b = create(&mut store, None, "B", "m").unwrap();
    let c = create(&mut store, None, "C", "a").unwrap();
    let listed = |s: &DocTable| {
        s.list_alive(WS).iter().map(|d| (d.id, d.title.clone())).collect::<Vec<_>>()
    };
    let before = listed(&store);
    let ids: Vec<Uuid> = before.iter().map(|d| d.0).collect();
    assert_eq!(ids, vec![c.id, a.id, b.id]);
    store.archive(WS, a.id, USER, now()).unwrap();
    assert!(listed(&store).iter().all(|d| d.0 != a.id));
    store.restore(WS, a.id, USER).unwrap();
    assert_eq!(listed(&store), before);
    assert_eq!(store.restore(WS, a.id, USER), Err(DocStoreError::NotFound));
    assert_eq!(store.archive(WS + 1, a.id, USER, now()), Err(DocStoreError::NotFound));
    assert_eq!(listed(&store), before);
}

#[test]
fn archive_hides_and_restore_brings_back() {
    let mut store = DocTable::new();
    let doc = create(&mut store, None, "X", "m").unwrap();
    store.archive(WS, doc.id, USER, now()).unwrap();
    assert_eq!(store.list_alive(WS).len(), 0);
    assert_eq!(store.archive(WS, doc.id, USER, now()), Err(DocStoreError::NotFound));
    store.restore(WS, doc.id, USER).unwrap();
    assert_eq!(store.list_alive(WS).len(), 1);
    assert_eq!(store.restore(WS, doc.id, USER), Err(DocStoreError::NotFound));
}

#[test]
fn move_to_under_new_parent() {
    let mut store = DocTable::new();
    let a = create(&mut store, None, "A", "m").unwrap();
    let b = create(&mut store, None, "B", "n").unwrap();
    let moved = store.move_to(WS, b.id, USER, Some(a.id), "m", now()).unwrap();
    assert_eq!(moved.parent_id, Some(a.id));
    let kids = store.siblings(WS, Some(a.id));
    assert_eq!(kids.len(), 1);
    assert_eq!(kids[0].id, b.id);
}

#[test]
fn rename_not_found() {
    let mut store = DocTable::new();
    let err = store.rename(WS, 77, USER, "X", None, now()).unwrap_err();
    assert!(matches!(err, DocStoreError::NotFound));
}

#[test]
fn descendant_ids_returns_full_subtree() {
    let mut store = DocTable::new();
    let a = create(&mut store, None, "A", "m").unwrap();
    let b = create(&mut store, Some(a.id), "B", "m").unwrap();
    let c = create(&mut store, Some(b.id), "C", "m").unwrap();
    let _d = create(&mut store, None, "D", "n").unwrap(); // unrelated root

    let descendants = store.descendant_ids(a.id);
    assert_eq!(descendants.len(), 2);
    assert!(descendants.contains(&b.id));
    assert!(descendants.contains(&c.id));
}

#[test]
fn templates_flow_set_and_list() {
    let mut store = DocTable::new();
    // Two regular docs + one template.
    let a = create(&mut store, None, "A", "m").unwrap();
    assert!(!a.is_template);
    let b = create(&mut store, None, "B", "m").unwrap();
    let tpl = create(&mut store, None, "Meeting notes", "m").unwrap();
    // Flip the template flag.
    let after = store.set_template(WS, tpl.id, USER, true, now()).unwrap();
    assert!(after.is_template);
    // list_alive must exclude the template.
    let ids: Vec<Uuid> = store.list_alive(WS).iter().map(|d| d.id).collect();
    assert!(ids.contains(&a.id));
    assert!(ids.contains(&b.id));
    assert!(!ids.contains(&tpl.id));
    // list_templates returns just the template.
    let templates = store.list_templates(WS);
    assert_eq!(templates.len(), 1);
    assert_eq!(templates[0].id, tpl.id);
    // Unmark restores it to the main tree.
    store.set_template(WS, tpl.id, USER, false, now()).unwrap();
    assert!(store.list_alive(WS).iter().any(|d| d.id == tpl.id));
    assert!(store.list_templates(WS).is_empty());
    assert!(matches!(
        store.set_template(WS, 77, USER, true, now()),
        Err(DocStoreError::NotFound)
    ));
}

#[test]
fn move_to_descendant_is_rejected_as_cycle() {
    let mut store = DocTable::new();
    let a = create(&mut store, None, "A", "m").unwrap();
    let b = create(&mut store, Some(a.id), "B", "m").unwrap();
    let err = store.move_to(WS, a.id, USER, Some(b.id), "n", now()).unwrap_err();
    assert!(matches!(err, DocStoreError::Cycle), "expected Cycle, got {err:?}");
    let err = store.move_to(WS, a.id, USER, Some(a.id), "n", now()).unwrap_err();
    assert!(matches!(err, DocStoreError::Cycle));
    assert_eq!(store.list_alive(WS).len(), 2);
}

#[test]
fn move_reorder_and_nest_preserve_all_docs() {
    let mut store = DocTable::new();
    let a = create(&mut store, None, "A", "a").unwrap();
    let b = create(&mut store, None, "B", "b").unwrap();
    let c = create(&mut store, None, "C", "c").unwrap();
    store.move_to(WS, c.id, USER, Some(a.id), "m", now()).unwrap();
    store.move_to(WS, b.id, USER, None, "z", now()).unwrap();
    let all = store.list_alive(WS);
    assert_eq!(all.len(), 3, "no doc lost");
    assert_eq!(all.iter().find(|d| d.id == c.id).unwrap().parent_id, Some(a.id));
}

#[test]
fn siblings_include_archived_so_sort_keys_are_not_reused() {
    let mut store = DocTable::new();
    let parent = create(&mut store, None, "P", "m").unwrap();
    let child = create(&mut store, Some(parent.id), "C", "m").unwrap();
    store.archive(WS, child.id, USER, now()).unwrap();

    // The archived child keeps its sort key and still counts.
    let sibs = store.siblings(WS, Some(parent.id));
    assert_eq!(sibs.len(), 1, "archived siblings must stay visible here");
    assert!(matches!(
        create(&mut store, Some(parent.id), "C2", "m"),
        Err(DocStoreError::Conflict)
    ));
    create(&mut store, Some(parent.id), "C2", "g").unwrap();
}

#[test]
fn a_taken_place_refuses_a_move() {
    let mut store = DocTable::new();
    let p = create(&mut store, None, "P", "m").unwrap();
    let a = create(&mut store, Some(p.id), "A", "a").unwrap();
    let b = create(&mut store, Some(p.id), "B", "b").unwrap();
    assert!(matches!(
        store.move_to(WS, b.id, USER, Some(p.id), "a", now()),
        Err(DocStoreError::Conflict)
    ));
    // Its own place is free for it, and the root has no contended places.
    store.move_to(WS, b.id, USER, Some(p.id), "b", now()).unwrap();
    store.move_to(WS, a.id, USER, None, "m", now()).unwrap();
    assert!(matches!(
        store.move_to(WS, 77, USER, None, "m", now()),
        Err(DocStoreError::NotFound)
    ));
    assert!(matches!(
        store.move_to(WS + 1, a.id, USER, None, "m", now()),
        Err(DocStoreError::NotFound)
    ));
}

#[test]
fn a_moved_subtree_goes_along() {
    let mut store = DocTable::new();
    let a = create(&mut store, None, "A", "a").unwrap();
    let b = create(&mut store, Some(a.id), "B", "b").unwrap();
    let c = create(&mut store, Some(b.id), "C", "c").unwrap();
    let d = create(&mut store, None, "D", "d").unwrap();
    store.move_to(WS, b.id, USER, Some(d.id), "b", now()).unwrap();
    assert_eq!(store.descendant_ids(a.id), Vec::<Uuid>::new());
    assert_eq!(store.descendant_ids(d.id), vec![b.id, c.id]);
    // What was above may now go below.
    store.move_to(WS, a.id, USER, Some(c.id), "a", now()).unwrap();
    assert_eq!(store.descendant_ids(d.id).len(), 3);
}

#[test]
fn the_tree_lists_roots_first_then_by_key() {
    let mut store = DocTable::new();
    let z = create(&mut store, None, "Z", "z").unwrap();
    let y = create(&mut store, Some(z.id), "Y", "b").unwrap();
    let x = create(&mut store, Some(z.id), "X", "a").unwrap();
    let w = create(&mut store, None, "W", "a").unwrap();
    let ids: Vec<Uuid> = store.list_alive(WS).iter().map(|d| d.id).collect();
    assert_eq!(ids, vec![w.id, z.id, x.id, y.id]);
    store.set_template(WS, x.id, USER, true, now()).unwrap();
    store.set_template(WS, w.id, USER, true, now()).unwrap();
    let titles: Vec<String> = store.list_templates(WS).into_iter().map(|d| d.title).collect();
    assert_eq!(titles, ["W", "X"]);
    assert!(store.list_alive(WS + 1).is_empty());
}

#[test]
fn changes_are_audited() {
    let mut store = DocTable::new();
    let a = create(&mut store, None, "A", "a").unwrap();
    store.rename(WS, a.id, USER, "B", None, now()).unwrap();
    store.archive(WS, a.id, USER, now()).unwrap();
    store.restore(WS, a.id, USER).unwrap();
    store.set_template(WS, a.id, USER, true, now()).unwrap();
    store.set_template(WS, a.id, USER, false, now()).unwrap();
    store.move_to(WS, a.id, USER, None, "b", now()).unwrap();
    let _ = store.rename(WS, 77, USER, "B", None, now());
    let changes: Vec<DocChange> = store.log().iter().map(|e| e.change).collect();
    assert_eq!(
        changes,
        vec![
            DocChange::Create,
            DocChange::Rename,
            DocChange::Archive,
            DocChange::Restore,
            DocChange::MarkTemplate,
            DocChange::UnmarkTemplate,
            DocChange::Move,
        ]
    );
    assert!(store.log().iter().all(|e| e.actor == USER && e.doc_id == a.id && e.workspace_id == WS));
    let names: Vec<&str> = changes.iter().map(|c| c.audit_action()).collect();
    assert_eq!(
        names,
        [
            "doc.create",
            "doc.rename",
            "doc.archive",
            "doc.restore",
            "doc.template.mark",
            "doc.template.unmark",
            "doc.move",
        ]
    );
    let reasons: Vec<Option<&str>> = changes.iter().map(|c| c.invalidation()).collect();
    assert_eq!(
        reasons,
        [Some("create"), None, Some("archive"), Some("restore"), None, None, Some("tree-move")]
    );
}

fn link(id: Uuid, parent_id: Option<Uuid>) -> TreeLink {
    TreeLink { id, parent_id }
}

#[test]
fn loops_are_seen_before_they_close() {
    let tree = vec![link(1, None), link(2, Some(1)), link(3, Some(2)), link(4, None)];
    assert!(creates_cycle(&tree, 1, 3));
    assert!(creates_cycle(&tree, 1, 1));
    assert!(!creates_cycle(&tree, 3, 1));
    assert!(!creates_cycle(&tree, 4, 3));
    // A document that is not there closes nothing.
    assert!(!creates_cycle(&tree, 9, 9));
    assert!(is_at_or_below(&tree, 3, 1));
    assert!(!is_at_or_below(&tree, 1, 3));
    assert!(is_in_tree(&tree, 4));
    assert!(!is_in_tree(&tree, 9));
    assert_eq!(descendant_ids(&tree, 1), vec![2, 3]);
    // Even links that already form a loop are walked to an end.
    let ring = vec![link(1, Some(2)), link(2, Some(1))];
    assert!(is_at_or_below(&ring, 1, 2));
    assert!(!is_at_or_below(&ring, 1, 3));
}

fn sibling(id: Uuid, sort_key: &str) -> Document {
    Document {
        id,
        workspace_id: WS,
        parent_id: None,
        title: "T".to_string(),
        sort_key: sort_key.to_string(),
        icon: None,
        created_by: USER,
        created_at: now(),
        updated_at: now(),
        archived_at: None,
        is_template: false,
    }
}

fn ends(g: Gap) -> (Option<String>, Option<String>) {
    (g.after, g.before)
}

fn gap(a: Option<&str>, b: Option<&str>) -> (Option<String>, Option<String>) {
    (a.map(|t| t.to_string()), b.map(|t| t.to_string()))
}

#[test]
fn new_documents_go_first_or_behind_a_sibling() {
    let sibs = vec![sibling(1, "a"), sibling(2, "b"), sibling(3, "c")];
    assert_eq!(ends(create_gap(&sibs, None)), gap(None, Some("a")));
    assert_eq!(ends(create_gap(&sibs, Some(1))), gap(Some("a"), Some("b")));
    assert_eq!(ends(create_gap(&sibs, Some(3))), gap(Some("c"), None));
    assert_eq!(ends(create_gap(&sibs, Some(9))), gap(Some("c"), None));
    assert_eq!(ends(create_gap(&vec![], None)), gap(None, None));
    assert_eq!(ends(create_gap(&vec![], Some(1))), gap(None, None));
    assert_eq!(ends(last_gap(&sibs)), gap(Some("c"), None));
}

#[test]
fn moved_documents_go_between_the_others() {
    let sibs = || vec![sibling(1, "a"), sibling(2, "b"), sibling(3, "c")];
    // Behind a sibling, the document itself not counting.
    assert_eq!(ends(move_gap(sibs(), 2, Some(1), None)), gap(Some("a"), Some("c")));
    // In front of one.
    assert_eq!(ends(move_gap(sibs(), 3, None, Some(1))), gap(None, Some("a")));
    assert_eq!(ends(move_gap(sibs(), 1, None, Some(3))), gap(Some("b"), Some("c")));
    // Behind wins over in front.
    assert_eq!(ends(move_gap(sibs(), 9, Some(2), Some(1))), gap(Some("b"), Some("c")));
    // Unknown neighbours and none at all: last.
    assert_eq!(ends(move_gap(sibs(), 9, Some(8), Some(1))), gap(Some("c"), None));
    assert_eq!(ends(move_gap(sibs(), 9, None, Some(8))), gap(Some("c"), None));
    assert_eq!(ends(move_gap(sibs(), 3, None, None)), gap(Some("b"), None));
    assert_eq!(ends(move_gap(vec![], 3, None, None)), gap(None, None));
    // Behind itself means last.
    assert_eq!(ends(move_gap(sibs(), 1, Some(1), None)), gap(Some("c"), None));
}

#[test]
fn documents_are_answered_with_their_texts() {
    let mut d = sibling(0xa, "k");
    d.parent_id = Some(0xb);
    d.icon = Some("i".to_string());
    d.archived_at = Some(now());
    let r = to_response(&d);
    assert_eq!(r.id, "00000000-0000-0000-0000-00000000000a");
    assert_eq!(r.parent_id.as_deref(), Some("00000000-0000-0000-0000-00000000000b"));
    assert_eq!(r.workspace_id, "00000000-0000-0000-0000-000000000064");
    assert_eq!(r.created_by, "00000000-0000-0000-0000-0000000000c8");
    assert_eq!((r.title.as_str(), r.sort_key.as_str()), ("T", "k"));
    assert_eq!(r.icon.as_deref(), Some("i"));
    assert!(r.archived);
    assert!(!r.is_template);
    assert!(!to_response(&sibling(1, "k")).archived);
}
