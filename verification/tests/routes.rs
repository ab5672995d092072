use knot::access::{AuthContext, Caller, WorkspaceRole};
use knot::collab::{
    board_found, collab_board_upgrade, collab_upgrade, join_board, join_room, RoleLookup,
};
use knot::doc_routes::{
    choose_title, create, doc_archived, doc_changed, doc_created, doc_found, doc_moved,
    from_template, get_one, is_blank, list, move_doc, owner_change, rename, rename_target,
    set_template, template_title, CreateRequest, FromTemplateRequest, Instantiation, MoveRequest,
    PatchRequest, SetTemplateRequest, TemplateEvent, TemplateNext, TemplateStep,
};
use knot::docs::{DocStoreError, Document};
use knot::http::{Received, Refusal};
use knot::ids::Uuid;
use knot::markdown::{
    export_inline, export_markdown_only, import_inline, import_text, index_target,
    refresh_after_import, refresh_for_export, refresh_markdown_and_index, Import, ImportEvent,
    ImportMode, ImportNext, ImportStep, Refresh, RefreshError, RefreshEvent, RefreshNext,
    RefreshRun, RefreshStep, RoomAnswer,
};
use knot::reindex::refresh_reported;
use knot::tasks::{assignment_notification, DocTaskInput};
use knot::time::Timestamp;

const WS: Uuid = 1;
const USER: Uuid = 10;

fn ctx(role: WorkspaceRole) -> Option<AuthContext> {
    Some(AuthContext { user_id: USER, workspace_id: WS, role })
}

fn caller(role: WorkspaceRole) -> Caller {
    Caller { auth: ctx(role), doc_role: Some(role) }
}

fn doc() -> Document {
    let t = Timestamp::from_micros(0).unwrap();
    Document {
        id: 5,
        workspace_id: WS,
        parent_id: None,
        title: "Plan".to_string(),
        sort_key: "m".to_string(),
        icon: None,
        created_by: USER,
        created_at: t,
        updated_at: t,
        archived_at: None,
        is_template: false,
    }
}

fn code(r: Refusal) -> (u16, &'static str) {
    (r.status, r.code)
}

#[test]
fn documents_are_created_by_editors_of_the_workspace() {
    let body = |title: Option<&str>| {
        Received::Parsed(CreateRequest {
            title: title.map(|t| t.to_string()),
            parent_id: Some(7),
            after_id: Some(8),
        })
    };
    let new = create(ctx(WorkspaceRole::Editor), body(None), true).unwrap();
    assert_eq!(new.title, "Untitled");
    assert_eq!((new.parent_id, new.after_id, new.ctx.user_id), (Some(7), Some(8), USER));
    assert_eq!(create(ctx(WorkspaceRole::Owner), body(Some("")), true).unwrap().title, "");
    assert_eq!(
        code(create(None, body(None), true).unwrap_err()),
        (401, "auth.session_required")
    );
    assert_eq!(
        code(create(ctx(WorkspaceRole::Viewer), body(None), true).unwrap_err()),
        (403, "acl.editor_required")
    );
    let e = create(ctx(WorkspaceRole::Editor), Received::Malformed, false).unwrap_err();
    assert_eq!(code(e), (400, "bad_request"));
    let e = create(ctx(WorkspaceRole::Editor), body(None), false).unwrap_err();
    assert_eq!(code(e), (500, "internal"));
    let (status, r) = doc_created(&Ok(doc())).unwrap();
    assert_eq!((status, r.title.as_str()), (201, "Plan"));
    assert_eq!(
        code(doc_created(&Err(DocStoreError::Conflict)).unwrap_err()),
        (409, "doc.sort_key_conflict")
    );
    assert_eq!(code(doc_created(&Err(DocStoreError::NotFound)).unwrap_err()).0, 500);
}

#[test]
fn documents_are_read_with_a_role() {
    assert_eq!(get_one(&caller(WorkspaceRole::Viewer), true).unwrap(), WorkspaceRole::Viewer);
    assert_eq!(code(get_one(&caller(WorkspaceRole::Viewer), false).unwrap_err()).0, 500);
    let c = Caller { auth: ctx(WorkspaceRole::Owner), doc_role: None };
    assert_eq!(code(get_one(&c, true).unwrap_err()), (403, "acl.no_grant"));
    let r = doc_found(WorkspaceRole::Editor, &Ok(Some(doc()))).unwrap();
    assert_eq!((r.effective_role.as_str(), r.doc.title.as_str()), ("editor", "Plan"));
    assert_eq!(
        code(doc_found(WorkspaceRole::Editor, &Ok(None)).unwrap_err()),
        (404, "doc.not_found")
    );
    let broken = Err(DocStoreError::Other);
    assert_eq!(code(doc_found(WorkspaceRole::Editor, &broken).unwrap_err()).0, 500);
    assert!(list(ctx(WorkspaceRole::Viewer), true).is_ok());
    assert_eq!(code(list(None, true).unwrap_err()).0, 401);
    assert_eq!(code(list(ctx(WorkspaceRole::Viewer), false).unwrap_err()).0, 500);
}

#[test]
fn renaming_keeps_what_is_not_named() {
    let patch = |t: Option<&str>, i: Option<&str>| PatchRequest {
        title: t.map(|t| t.to_string()),
        icon: i.map(|i| i.to_string()),
    };
    let r = rename_target(patch(None, Some("x")), &Ok(Some(doc()))).unwrap();
    assert_eq!((r.title.as_str(), r.icon.as_deref()), ("Plan", Some("x")));
    let r = rename_target(patch(Some("New"), None), &Ok(Some(doc()))).unwrap();
    assert_eq!((r.title.as_str(), r.icon.as_deref()), ("New", None));
    assert_eq!(code(rename_target(patch(None, None), &Ok(None)).unwrap_err()).0, 404);
    let broken = Err(DocStoreError::Other);
    assert_eq!(code(rename_target(patch(None, None), &broken).unwrap_err()).0, 500);
    let e = rename(&caller(WorkspaceRole::Viewer), Received::Malformed, true).unwrap_err();
    assert_eq!(code(e), (403, "acl.editor_required"));
    let e = rename(&caller(WorkspaceRole::Editor), Received::Unreadable, true).unwrap_err();
    assert_eq!(code(e), (400, "bad_request"));
    let ok = rename(&caller(WorkspaceRole::Editor), Received::Parsed(patch(None, None)), true);
    assert_eq!(ok.unwrap().0.user_id, USER);
    assert_eq!(doc_changed(&Ok(doc())).unwrap().title, "Plan");
    assert_eq!(code(doc_changed(&Err(DocStoreError::NotFound)).unwrap_err()).0, 404);
    assert_eq!(code(doc_changed(&Err(DocStoreError::Conflict)).unwrap_err()).0, 500);
}

#[test]
fn moves_are_answered() {
    let to = || MoveRequest { parent_id: None, after_id: Some(1), before_id: None };
    let (_, m) = move_doc(&caller(WorkspaceRole::Owner), Received::Parsed(to()), true).unwrap();
    assert_eq!(m.after_id, Some(1));
    let e = move_doc(&caller(WorkspaceRole::Owner), Received::Parsed(to()), false).unwrap_err();
    assert_eq!(code(e).0, 500);
    let e = move_doc(&caller(WorkspaceRole::Viewer), Received::Parsed(to()), true).unwrap_err();
    assert_eq!(code(e).0, 403);
    assert_eq!(doc_moved(&Ok(doc())).unwrap().title, "Plan");
    let refused = |e| code(doc_moved(&Err(e)).unwrap_err());
    assert_eq!(refused(DocStoreError::NotFound), (404, "doc.not_found"));
    assert_eq!(refused(DocStoreError::Conflict), (409, "doc.sort_key_conflict"));
    assert_eq!(refused(DocStoreError::Cycle), (409, "doc.move_cycle"));
    assert_eq!(refused(DocStoreError::Other), (500, "internal"));
}

#[test]
fn owners_archive_restore_and_mark_templates() {
    assert!(owner_change(&caller(WorkspaceRole::Owner), true).is_ok());
    assert_eq!(code(owner_change(&caller(WorkspaceRole::Owner), false).unwrap_err()).0, 500);
    assert_eq!(
        code(owner_change(&caller(WorkspaceRole::Editor), true).unwrap_err()),
        (403, "acl.owner_required")
    );
    assert_eq!(doc_archived(&Ok(())).unwrap(), 204);
    assert_eq!(code(doc_archived(&Err(DocStoreError::NotFound)).unwrap_err()).0, 404);
    assert_eq!(code(doc_archived(&Err(DocStoreError::Other)).unwrap_err()).0, 500);
    let body = || Received::Parsed(SetTemplateRequest { is_template: true });
    assert!(set_template(&caller(WorkspaceRole::Owner), body(), true).unwrap().1.is_template);
    assert_eq!(
        code(set_template(&caller(WorkspaceRole::Editor), body(), true).unwrap_err()),
        (403, "acl.owner_required")
    );
    let e = set_template(&caller(WorkspaceRole::Owner), Received::Malformed, true).unwrap_err();
    assert_eq!(code(e), (400, "bad_request"));
}

#[test]
fn instantiated_templates_get_a_title() {
    let some = |t: &str| Some(t.to_string());
    let found = || Ok(Some(doc()));
    assert_eq!(template_title(some("Mine"), &found()), "Mine");
    assert_eq!(template_title(some(" Mine "), &found()), " Mine ");
    assert_eq!(template_title(some(" \t\n\u{a0}"), &found()), "Plan copy");
    assert_eq!(template_title(some(""), &found()), "Plan copy");
    assert_eq!(template_title(None, &found()), "Plan copy");
    assert_eq!(template_title(None, &Ok(None)), "Untitled");
    assert_eq!(template_title(some(" "), &Err(DocStoreError::Other)), "Untitled");
    assert!(is_blank("") && is_blank(" \u{a0}\t\n\u{3000}"));
    assert!(is_blank("\t\n\u{b}\u{c}\r\u{85}\u{1680}\u{2000}\u{200a}"));
    assert!(is_blank("\u{2028}\u{2029}\u{202f}\u{205f}"));
    assert!(!is_blank("\u{8d8a}") && !is_blank(" a ") && !is_blank("\u{200b}"));
    assert!(!is_blank("\u{8}") && !is_blank("\u{e}") && !is_blank("\u{180e}"));
    assert_eq!(choose_title(some("x"), false, None), "x");
    assert_eq!(choose_title(some("x"), true, Some("T")), "T copy");
    assert_eq!(choose_title(None, false, None), "Untitled");
    let body = || Received::Parsed(FromTemplateRequest { title: None, parent_id: Some(3) });
    let (_, b) = from_template(ctx(WorkspaceRole::Editor), body(), true).unwrap();
    assert_eq!(b.parent_id, Some(3));
    let e = from_template(ctx(WorkspaceRole::Viewer), body(), true).unwrap_err();
    assert_eq!(code(e), (403, "acl.editor_required"));
    assert_eq!(code(from_template(None, body(), true).unwrap_err()).0, 401);
    let e = from_template(ctx(WorkspaceRole::Editor), Received::Malformed, true).unwrap_err();
    assert_eq!(code(e).0, 400);
}

fn instance(title: Option<&str>, rooms_ready: bool) -> Instantiation {
    let ctx = ctx(WorkspaceRole::Editor).unwrap();
    let request =
        FromTemplateRequest { title: title.map(|t| t.to_string()), parent_id: Some(3) };
    let (i, step) = Instantiation::begin(ctx, 9, request, rooms_ready, true, true);
    let TemplateStep::Export(refresh) = step else { panic!("{step:?}") };
    assert_eq!((refresh.doc_id, refresh.reindex_tasks, refresh.actor_id), (9, false, None));
    assert_eq!(refresh.rooms_ready, rooms_ready);
    i
}

fn template_step(i: Instantiation, event: TemplateEvent) -> (Instantiation, TemplateStep) {
    match i.next(event) {
        (i, TemplateNext::Do(step)) => (i, step),
        other => panic!("{other:?}"),
    }
}

fn template_refusal(i: Instantiation, event: TemplateEvent) -> (u16, &'static str) {
    match i.next(event) {
        (_, TemplateNext::Refuse(r)) => code(r),
        other => panic!("{other:?}"),
    }
}

#[test]
fn templates_are_instantiated_step_by_step() {
    let i = instance(Some(" "), true);
    let (i, step) = template_step(i, TemplateEvent::Exported(Some("# T".to_string())));
    assert!(matches!(
        step,
        TemplateStep::ReadSiblings { workspace_id: WS, parent_id: Some(3) }
    ));
    let (i, step) = template_step(i, TemplateEvent::SiblingsRead(Some(vec![doc()])));
    assert!(matches!(step, TemplateStep::FindTemplate { template_id: 9 }));
    let (i, step) = template_step(i, TemplateEvent::TemplateFound(Ok(Some(doc()))));
    let TemplateStep::Create { workspace_id, parent_id, title, gap, created_by } = step else {
        panic!("{step:?}")
    };
    assert_eq!((workspace_id, parent_id, created_by), (WS, Some(3), USER));
    assert_eq!(title, "Plan copy");
    assert_eq!((gap.after.as_deref(), gap.before.as_deref()), (Some("m"), None));
    let (i, step) = template_step(i, TemplateEvent::Created(doc()));
    let TemplateStep::Parse { text } = step else { panic!("{step:?}") };
    assert_eq!(text, "# T");
    let (i, step) = template_step(i, TemplateEvent::Parsed(Some(vec![1, 2])));
    assert!(matches!(step, TemplateStep::AcquireRoom { doc_id: 5 }));
    let (i, step) = template_step(i, TemplateEvent::RoomAcquired(true));
    let TemplateStep::Apply { update, by_user } = step else { panic!("{step:?}") };
    assert_eq!((update, by_user), (vec![1, 2], USER));
    let (_, last) = i.next(TemplateEvent::Answered(RoomAnswer::Applied));
    let TemplateNext::Answer(status, answered) = last else { panic!("{last:?}") };
    assert_eq!((status, answered.title.as_str()), (201, "Plan"));
}

#[test]
fn a_title_that_is_asked_for_spares_the_look_up() {
    let i = instance(Some("Mine"), true);
    let (_, step) = template_step(i, TemplateEvent::SiblingsRead(Some(vec![])));
    let TemplateStep::Create { title, gap, .. } = step else { panic!("{step:?}") };
    assert_eq!(title, "Mine");
    assert!(gap.after.is_none() && gap.before.is_none());
}

#[test]
fn templates_that_fail_say_why() {
    let internal = (500, "internal");
    let refused = |e| template_refusal(instance(None, true), e);
    assert_eq!(refused(TemplateEvent::Exported(None)), internal);
    assert_eq!(refused(TemplateEvent::SiblingsRead(None)), internal);
    assert_eq!(
        refused(TemplateEvent::NotCreated(DocStoreError::Conflict)),
        (409, "doc.sort_key_conflict")
    );
    assert_eq!(refused(TemplateEvent::NotCreated(DocStoreError::Other)), internal);
    assert_eq!(refused(TemplateEvent::Parsed(None)), (422, "markdown.parse"));
    assert_eq!(refused(TemplateEvent::RoomAcquired(false)), internal);
    assert_eq!(
        refused(TemplateEvent::Answered(RoomAnswer::Rejected)),
        (422, "markdown.apply")
    );
    assert_eq!(refused(TemplateEvent::Answered(RoomAnswer::Unreachable)), internal);
    let (i, _) = template_step(instance(None, false), TemplateEvent::Created(doc()));
    assert_eq!(template_refusal(i, TemplateEvent::Parsed(Some(vec![]))), internal);
}

#[test]
fn imports_append_unless_told_to_replace() {
    let c = caller(WorkspaceRole::Editor);
    let mode = |m: Option<&str>| import_inline(&c, m, true).unwrap().1;
    assert_eq!(mode(None), ImportMode::Append);
    assert_eq!(mode(Some("append")), ImportMode::Append);
    assert_eq!(mode(Some("replace")), ImportMode::Replace);
    assert_eq!(
        code(import_inline(&c, Some("Replace"), true).unwrap_err()),
        (400, "markdown.bad_mode")
    );
    assert_eq!(code(import_inline(&c, None, false).unwrap_err()).0, 500);
    let e = import_inline(&caller(WorkspaceRole::Viewer), Some("x"), false).unwrap_err();
    assert_eq!(code(e), (403, "acl.editor_required"));
    assert_eq!(import_text(Some("héllo".as_bytes().to_vec())).unwrap(), "héllo");
    assert_eq!(import_text(Some(vec![])).unwrap(), "");
    assert_eq!(
        code(import_text(Some(vec![0x68, 0xff])).unwrap_err()),
        (422, "markdown.not_utf8")
    );
    assert_eq!(code(import_text(None).unwrap_err()), (400, "bad_request"));
    assert!(export_inline(&caller(WorkspaceRole::Viewer)).is_none());
}

fn import() -> Import {
    let ctx = ctx(WorkspaceRole::Editor).unwrap();
    let (i, step) =
        Import::begin(ctx, ImportMode::Replace, 0xd, "# T".to_string(), true, true);
    let ImportStep::Parse { text } = step else { panic!("{step:?}") };
    assert_eq!(text, "# T");
    i
}

fn import_step(i: Import, event: ImportEvent) -> (Import, ImportStep) {
    match i.next(event) {
        (i, ImportNext::Do(step)) => (i, step),
        other => panic!("{other:?}"),
    }
}

#[test]
fn imports_go_step_by_step_for_their_author() {
    let (i, step) = import_step(import(), ImportEvent::Parsed(Some(vec![1, 2])));
    assert!(matches!(step, ImportStep::AcquireRoom { doc_id: 0xd }));
    let (i, step) = import_step(i, ImportEvent::RoomAcquired(true));
    let ImportStep::Apply { update, mode, by_user } = step else { panic!("{step:?}") };
    assert_eq!((update, mode, by_user), (vec![1, 2], ImportMode::Replace, USER));
    let (i, step) = import_step(i, ImportEvent::Answered(RoomAnswer::Applied));
    let ImportStep::Refresh(refresh) = step else { panic!("{step:?}") };
    let auth = ctx(WorkspaceRole::Editor).unwrap();
    assert_eq!(refresh, refresh_after_import(&auth, 0xd, true, true, true));
    assert_eq!((refresh.actor_id, refresh.reindex_tasks), (Some(USER), true));
    assert!(matches!(i.next(ImportEvent::Refreshed).1, ImportNext::Answer(204)));
    let refusal = |e: ImportEvent| match import().next(e) {
        (_, ImportNext::Refuse(r)) => code(r),
        other => panic!("{other:?}"),
    };
    assert_eq!(refusal(ImportEvent::Parsed(None)), (422, "markdown.parse"));
    assert_eq!(refusal(ImportEvent::RoomAcquired(false)), (500, "internal"));
    assert_eq!(
        refusal(ImportEvent::Answered(RoomAnswer::Rejected)),
        (422, "markdown.apply")
    );
    assert_eq!(refusal(ImportEvent::Answered(RoomAnswer::Unreachable)), (500, "internal"));
}

#[test]
fn importing_ones_own_task_tells_nobody_and_exporting_names_nobody() {
    let auth = ctx(WorkspaceRole::Editor).unwrap();
    let own = DocTaskInput {
        item_index: 0,
        text: "mine".to_string(),
        assignee_user_id: Some(USER),
        checked: false,
        due_at: None,
    };
    let after = |refresh: Refresh| {
        let (run, _) = refresh.begin();
        match run.next(RefreshEvent::CacheTried).1 {
            RefreshNext::Do(RefreshStep::IndexTasks { actor_id, .. }) => actor_id,
            other => panic!("{other:?}"),
        }
    };
    let importer = after(refresh_after_import(&auth, 0xd, true, true, true));
    assert_eq!(importer, Some(USER));
    assert!(assignment_notification(WS, 0xd, &own, importer).is_none());
    let nobody = after(refresh_for_export(0xd, true, true, true));
    assert_eq!(nobody, None);
    assert!(assignment_notification(WS, 0xd, &own, nobody).is_some());
    assert_eq!(after(refresh_reported(0xd, true, true, true)), None);
}

fn refresh_step(r: (RefreshRun, RefreshNext)) -> (RefreshRun, RefreshStep) {
    match r {
        (run, RefreshNext::Do(step)) => (run, step),
        other => panic!("{other:?}"),
    }
}

fn rendered(refresh: Refresh) -> (RefreshRun, RefreshNext) {
    let (run, _) = refresh.begin();
    run.next(RefreshEvent::TextRendered("# T".to_string()))
}

#[test]
fn refreshes_go_step_by_step() {
    let r = refresh_markdown_and_index(0xd, Some(USER), true, true, true);
    let (run, step) = refresh_step(r.begin());
    assert!(matches!(step, RefreshStep::AcquireRoom));
    let (run, step) = refresh_step(run.next(RefreshEvent::RoomAcquired));
    assert!(matches!(step, RefreshStep::AskState));
    let (run, step) = refresh_step(run.next(RefreshEvent::StateGiven { seq: 7 }));
    assert!(matches!(step, RefreshStep::ApplyState));
    let (run, step) = refresh_step(run.next(RefreshEvent::StateApplied));
    assert!(matches!(step, RefreshStep::Serialise));
    let (run, step) = refresh_step(run.next(RefreshEvent::TextRendered("# T".to_string())));
    let RefreshStep::PutCache { seq, text } = step else { panic!("{step:?}") };
    assert_eq!((seq, text.as_str()), (7, "# T"));
    let (run, step) = refresh_step(run.next(RefreshEvent::CacheTried));
    let RefreshStep::IndexTasks { actor_id, text } = step else { panic!("{step:?}") };
    assert_eq!((actor_id, text.as_str()), (Some(USER), "# T"));
    let (_, last) = run.next(RefreshEvent::IndexTried);
    assert!(matches!(last, RefreshNext::Done(text) if text == "# T"));
    let (_, step) =
        refresh_step(rendered(refresh_markdown_and_index(0xd, None, true, false, true)));
    assert!(matches!(step, RefreshStep::IndexTasks { actor_id: None, .. }));
    let (_, next) = rendered(refresh_markdown_and_index(0xd, None, true, false, false));
    assert!(matches!(next, RefreshNext::Done(text) if text == "# T"));
    let (run, step) = refresh_step(rendered(export_markdown_only(0xd, true, true, true)));
    assert!(matches!(step, RefreshStep::PutCache { .. }));
    assert!(matches!(run.next(RefreshEvent::CacheTried).1, RefreshNext::Done(_)));
    assert_eq!(index_target(&Ok(Some(doc()))), Some(WS));
    assert_eq!(index_target(&Ok(None)), None);
    assert_eq!(index_target(&Err(DocStoreError::Other)), None);
}

fn refresh_failure(next: RefreshNext) -> RefreshError {
    match next {
        RefreshNext::Fail(e) => e,
        other => panic!("{other:?}"),
    }
}

#[test]
fn failed_refreshes_say_where_they_failed() {
    let failure = |e: RefreshEvent| {
        let (run, _) = refresh_markdown_and_index(0xd, None, true, true, true).begin();
        refresh_failure(run.next(e).1)
    };
    let text = |e: RefreshEvent| failure(e).message();
    let id = "00000000-0000-0000-0000-00000000000d";
    let no_rooms = refresh_markdown_and_index(0xd, None, false, true, true);
    assert_eq!(
        refresh_failure(no_rooms.begin().1).message(),
        "server state missing rooms registry"
    );
    assert_eq!(text(RefreshEvent::RoomNotAcquired), format!("room acquire failed for {id}"));
    assert_eq!(text(RefreshEvent::RoomSilent), format!("room actor unreachable for {id}"));
    let why = || "why".to_string();
    assert_eq!(
        text(RefreshEvent::StateRefused(why())),
        "room actor returned an error: why"
    );
    assert_eq!(text(RefreshEvent::StateDoesNotApply(why())), "yrs apply: why");
    assert_eq!(text(RefreshEvent::TextNotRendered(why())), "markdown serialise: why");
    assert!(matches!(
        failure(RefreshEvent::RoomSilent),
        RefreshError::RoomUnreachable(0xd)
    ));
}

#[test]
fn viewers_read_along_and_writers_write() {
    assert!(collab_upgrade(ctx(WorkspaceRole::Viewer), true).is_ok());
    assert_eq!(code(collab_upgrade(None, true).unwrap_err()).0, 401);
    assert_eq!(code(collab_upgrade(ctx(WorkspaceRole::Viewer), false).unwrap_err()).0, 500);
    assert_eq!(join_room(RoleLookup::Role(WorkspaceRole::Viewer), true).unwrap(), false);
    assert_eq!(join_room(RoleLookup::Role(WorkspaceRole::Editor), true).unwrap(), true);
    assert_eq!(join_room(RoleLookup::Role(WorkspaceRole::Owner), true).unwrap(), true);
    assert_eq!(code(join_room(RoleLookup::NoRole, true).unwrap_err()), (403, "acl.no_grant"));
    assert_eq!(code(join_room(RoleLookup::Failed, true).unwrap_err()).0, 500);
    let viewer = RoleLookup::Role(WorkspaceRole::Viewer);
    assert_eq!(code(join_room(viewer, false).unwrap_err()).0, 500);
    assert!(collab_board_upgrade(ctx(WorkspaceRole::Viewer), true, true).is_ok());
    let e = collab_board_upgrade(ctx(WorkspaceRole::Viewer), false, true).unwrap_err();
    assert_eq!(code(e).0, 500);
    assert_eq!(code(collab_board_upgrade(None, true, true).unwrap_err()).0, 401);
    assert!(board_found(true).is_none());
    assert_eq!(code(board_found(false).unwrap()), (404, "board.not_found"));
    assert!(join_board(RoleLookup::Role(WorkspaceRole::Editor), true).is_none());
    assert_eq!(code(join_board(viewer, true).unwrap()), (403, "acl.no_grant"));
    assert_eq!(code(join_board(RoleLookup::NoRole, true).unwrap()), (403, "acl.no_grant"));
    assert_eq!(code(join_board(RoleLookup::Failed, true).unwrap()).0, 500);
    let editor = RoleLookup::Role(WorkspaceRole::Editor);
    assert_eq!(code(join_board(editor, false).unwrap()).0, 500);
}
