use notebook::memos::{Memo, MemoStatus, Memos};

#[test]
fn then_it_should_mark_as_done() {
    let mut memos = Memos::create("memos_mock.json".to_string());

    memos.add_pending("First task".to_string());
    memos.add_pending("Second task".to_string());
    memos.add_pending("Sub SECOND sub task".to_string());

    let memos_as_done = memos.mark_as_done("second".to_string());

    let memos_as_done_expected = vec![
        Memo::create_done("Second task".to_string()),
        Memo::create_done("Sub SECOND sub task".to_string()),
    ];

    assert_eq!(memos_as_done, memos_as_done_expected, "The memos retrieved are not correct");

    let memos_expected = vec![
        Memo::create_pending("First task".to_string()),
        Memo::create_done("Second task".to_string()),
        Memo::create_done("Sub SECOND sub task".to_string()),
    ];

    assert_eq!(memos.memos(), &memos_expected, "The memos saved are not correct");
}

#[test]
fn then_it_should_not_return_as_done_memos_already_as_done() {
    let mut memos = Memos::create("memos_mock.json".to_string());

    memos.add_done("First task".to_string());
    memos.add_done("Second task".to_string());

    let memos_as_done = memos.mark_as_done("task".to_string());

    let memos_as_done_expected: Vec<Memo> = vec![];

    assert_eq!(memos_as_done, memos_as_done_expected, "The memos retrieved are not correct");
}

#[test]
fn then_it_should_purge_done_memos() {
    let mut memos = Memos::create("memos_mock.json".to_string());

    memos.add_done("First task".to_string());
    memos.add_pending("Second task".to_string());
    memos.add_done("Third task".to_string());

    memos.purge_done();

    let memos_expected = vec![Memo::create_pending("Second task".to_string())];

    assert_eq!(memos.memos(), &memos_expected, "The memos saved are not correct");
}

#[test]
fn a_new_store_is_empty_and_keeps_its_path() {
    let memos = Memos::create("./memos.json".to_string());
    assert!(memos.memos().is_empty());
    assert_eq!(memos.file_path(), "./memos.json");
}

#[test]
fn loaded_memos_are_kept_in_order() {
    let mut memos = Memos::create("memos.json".to_string());
    memos.add_pending("dropped".to_string());
    let list = vec![
        Memo::create_pending("One record".to_string()),
        Memo::create_pending("Second record".to_string()),
    ];
    memos.load(list.clone());
    assert_eq!(memos.memos(), &list);
}

#[test]
fn memos_are_added_last() {
    let mut memos = Memos::create("memos.json".to_string());
    memos.add_pending("a".to_string());
    memos.add_done("b".to_string());
    assert_eq!(
        memos.memos(),
        &vec![Memo::create_pending("a".to_string()), Memo::create_done("b".to_string())]
    );
}

#[test]
fn marking_twice_marks_nothing_more() {
    let mut memos = Memos::create("memos.json".to_string());
    memos.add_pending("Buy milk".to_string());
    memos.add_pending("buy MILK and bread".to_string());
    memos.add_pending("Call mum".to_string());
    let first = memos.mark_as_done("Milk".to_string());
    assert_eq!(first.len(), 2);
    let after_first = memos.memos().clone();
    let second = memos.mark_as_done("Milk".to_string());
    assert!(second.is_empty());
    assert_eq!(memos.memos(), &after_first);
}

#[test]
fn an_empty_match_text_marks_every_pending_memo() {
    let mut memos = Memos::create("memos.json".to_string());
    memos.add_done("old".to_string());
    memos.add_pending("new".to_string());
    let done = memos.mark_as_done(String::new());
    assert_eq!(done, vec![Memo::create_done("new".to_string())]);
    assert!(memos.memos().iter().all(|m| m.status() == MemoStatus::Done));
}

#[test]
fn purging_after_marking_leaves_the_unmarked_pending_memos() {
    let mut memos = Memos::create("memos.json".to_string());
    memos.add_pending("Write report".to_string());
    memos.add_pending("Read mail".to_string());
    memos.add_done("Old task".to_string());
    memos.mark_as_done("REPORT".to_string());
    memos.purge_done();
    assert_eq!(memos.memos(), &vec![Memo::create_pending("Read mail".to_string())]);
    memos.purge_done();
    assert_eq!(memos.memos(), &vec![Memo::create_pending("Read mail".to_string())]);
}

#[test]
fn a_memo_marked_done_keeps_its_text() {
    let mut memo = Memo::create("Water plants".to_string(), MemoStatus::Pending);
    memo.mark_as_done();
    assert_eq!(memo, Memo::create_done("Water plants".to_string()));
    assert_eq!(memo.text(), "Water plants");
    assert_eq!(memo.status(), MemoStatus::Done);
    memo.mark_as_done();
    assert_eq!(memo.status(), MemoStatus::Done);
}

#[test]
fn memos_are_shown_with_their_status() {
    assert_eq!(
        Memo::create_pending("One record".to_string()).to_string(),
        "[Pending] - One record"
    );
    assert_eq!(Memo::create_done("Two".to_string()).to_string(), "[Done] - Two");
    assert_eq!(MemoStatus::Pending.label(), "Pending");
    assert_eq!(MemoStatus::Done.label(), "Done");
}

#[test]
fn capital_and_small_patterns_mark_the_same_memos() {
    let mut upper = Memos::create("memos.json".to_string());
    let mut lower = Memos::create("memos.json".to_string());
    for memos in [&mut upper, &mut lower] {
        memos.add_pending("First task".to_string());
        memos.add_pending("Second task".to_string());
        memos.add_pending("Sub SECOND sub task".to_string());
        memos.add_done("second round".to_string());
    }
    let done_upper = upper.mark_as_done("SECOND".to_string());
    let done_lower = lower.mark_as_done("second".to_string());
    assert_eq!(done_upper, done_lower);
    assert_eq!(upper.memos(), lower.memos());
    assert_eq!(done_upper.len(), 2);
}
