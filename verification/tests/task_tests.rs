use taskmanager::session::{must_log_in, visitor_name};
use taskmanager::task::{
    chosen_user, find_task, page_offset, pager, plan_submission, status_change, total_pages,
    Status, Submission, Task, PAGE_SIZE,
};

fn task(id: Option<u32>, name: &str) -> Task {
    Task {
        id,
        name: name.to_string(),
        content: String::new(),
        status: Status::Idle,
        start_time: String::new(),
        end_time: String::new(),
        user_id: 2,
        assignee_name: "a@b.c".to_string(),
    }
}

#[test]
fn status_codes_and_names() {
    assert_eq!(Status::Idle.to_i32(), 0);
    assert_eq!(Status::Doing.to_i32(), 1);
    assert_eq!(Status::Completed.to_i32(), 2);
    for s in [Status::Idle, Status::Doing, Status::Completed] {
        assert_eq!(Status::from_code(s.to_i32() as i64), s);
    }
    assert_eq!(Status::from_code(7), Status::Idle);
    assert_eq!(Status::from_code(-1), Status::Idle);
    assert_eq!(Status::Idle.to_string(), "待处理");
    assert_eq!(Status::Doing.to_string(), "进行中");
    assert_eq!(Status::Completed.to_string(), "已完成");
}

#[test]
fn rows_become_tasks() {
    let t = Task::from_row(
        (1i64 << 32) + 5,
        "n".to_string(),
        3,
        "s".to_string(),
        "e".to_string(),
        "c".to_string(),
        2,
        "未知".to_string(),
    );
    assert_eq!(t.id, Some(5));
    assert_eq!(t.status, Status::Completed);
    assert_eq!(t.assignee_name, "未知");
}

#[test]
fn pages_of_the_task_list() {
    assert_eq!(page_offset(1, PAGE_SIZE), 0);
    assert_eq!(page_offset(0, PAGE_SIZE), 0);
    assert_eq!(page_offset(3, 9), 18);
    assert_eq!(total_pages(0, 9), 1);
    assert_eq!(total_pages(9, 9), 1);
    assert_eq!(total_pages(10, 9), 2);
    assert_eq!(total_pages(u32::MAX, 2), 2147483648);
    let p = pager(19, 9, 1);
    assert_eq!(p.total_pages, 3);
    assert!(!p.can_go_back);
    assert!(p.can_go_forward);
    let last = pager(19, 9, 3);
    assert!(last.can_go_back);
    assert!(!last.can_go_forward);
}

#[test]
fn find_task_gives_the_first_match() {
    let list = vec![task(None, "x"), task(Some(4), "a"), task(Some(4), "b")];
    assert_eq!(find_task(&list, 4), Some(1));
    assert_eq!(find_task(&list, 9), None);
}

#[test]
fn status_menu_and_user_menu() {
    assert_eq!(status_change("2", 0), Some(2));
    assert_eq!(status_change("0", 0), None);
    assert_eq!(status_change("+1", 0), Some(1));
    assert_eq!(status_change("x", 0), None);
    assert_eq!(status_change("99999999999", 0), None);
    assert_eq!(chosen_user("42"), Some(42));
    assert_eq!(chosen_user("-7"), Some(-7));
    assert_eq!(chosen_user(""), None);
    assert_eq!(chosen_user("4 2"), None);
}

#[test]
fn task_form_submission() {
    assert!(matches!(plan_submission(None, &None, None), Submission::MissingAssignee));
    let editing = Some(task(Some(8), "t"));
    assert!(matches!(
        plan_submission(Some(3), &editing, None),
        Submission::Update { id: 8, user_id: 3 }
    ));
    let unsaved = Some(task(None, "t"));
    assert!(matches!(plan_submission(Some(3), &unsaved, None), Submission::Update { id: 0, .. }));
    match plan_submission(Some(5), &None, Some("me@x.y".to_string())) {
        Submission::Create { user_id, owner } => {
            assert_eq!(user_id, 5);
            assert_eq!(owner, "me@x.y");
        }
        _ => panic!("create"),
    }
    match plan_submission(Some(5), &None, None) {
        Submission::Create { owner, .. } => assert_eq!(owner, ""),
        _ => panic!("create"),
    }
}

#[test]
fn session_decisions() {
    assert_eq!(visitor_name(None), "游客");
    assert_eq!(visitor_name(Some("u@x".to_string())), "u@x");
    assert!(must_log_in(true, false));
    assert!(!must_log_in(false, false));
    assert!(!must_log_in(true, true));
}

#[test]
fn parsing_reads_back_what_display_writes() {
    for n in [0i64, 7, -7, i64::MAX, i64::MIN, 1000000] {
        assert_eq!(chosen_user(&taskmanager::redis::i64_text(n)), Some(n));
    }
}
