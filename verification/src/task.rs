//! Tasks: their status, the pages of the task list, and what the task forms
//! decide.
use vstd::prelude::*;
use vstd::string::*;
use crate::text::{parse_i32, parse_i32_bytes, parse_i64, parse_i64_bytes};

verus! {

#[derive(Clone, Copy, PartialEq, Eq, Structural, Debug)]
pub enum Status {
    Idle,
    Doing,
    Completed,
}

/// The number that stores a status.
pub open spec fn status_code(s: Status) -> i32 {
    match s {
        Status::Idle => 0,
        Status::Doing => 1,
        Status::Completed => 2,
    }
}

/// The status that a stored number stands for; any unknown number is idle.
pub open spec fn status_of(code: int) -> Status {
    if code == 1 {
        Status::Doing
    } else if code == 2 {
        Status::Completed
    } else {
        Status::Idle
    }
}

pub open spec fn status_label(s: Status) -> Seq<char> {
    match s {
        Status::Idle => "待处理"@,
        Status::Doing => "进行中"@,
        Status::Completed => "已完成"@,
    }
}

impl Status {
    pub fn to_i32(&self) -> (res: i32)
        ensures
            res == status_code(*self),
    {
        match self {
            Status::Idle => 0,
            Status::Doing => 1,
            Status::Completed => 2,
        }
    }

    /// The status stored as `code`.
    pub fn from_code(code: i64) -> (res: Status)
        ensures
            res == status_of(code as int),
    {
        if code == 1 {
            Status::Doing
        } else if code == 2 {
            Status::Completed
        } else {
            Status::Idle
        }
    }

    /// The name of the status on the page.
    pub fn to_string(&self) -> (res: String)
        ensures
            res@ == status_label(*self),
    {
        match self {
            Status::Idle => "待处理".to_owned(),
            Status::Doing => "进行中".to_owned(),
            Status::Completed => "已完成".to_owned(),
        }
    }
}

/// A stored status reads back as itself.
pub proof fn law_status_code_round_trip(s: Status)
    ensures
        status_of(status_code(s) as int) == s,
{
}

#[derive(Clone, PartialEq, Debug)]
pub struct Task {
    pub id: Option<u32>,
    pub name: String,
    pub content: String,
    pub status: Status,
    pub start_time: String,
    pub end_time: String,
    pub user_id: i64,
    pub assignee_name: String,
}

impl Task {
    /// The task that a row of the task list holds: its id is kept in a
    /// `u32` (the low 32 bits of the stored id), its status is decoded.
    pub fn from_row(
        id: i64,
        name: String,
        user_id: i64,
        start_time: String,
        end_time: String,
        content: String,
        status: i64,
        assignee_name: String,
    ) -> (res: Task)
        ensures
            res.id == Some(id as u32),
            res.name == name,
            res.user_id == user_id,
            res.start_time == start_time,
            res.end_time == end_time,
            res.content == content,
            res.status == status_of(status as int),
            res.assignee_name == assignee_name,
    {
        Task {
            id: Some(id as u32),
            name,
            user_id,
            start_time,
            end_time,
            content,
            status: Status::from_code(status),
            assignee_name,
        }
    }
}

/// Tasks on a page of the task list.
pub const PAGE_SIZE: u32 = 9;

/// The number of tasks before page `page` (pages count from 1; page 0 is
/// read as the first).
pub fn page_offset(page: u32, page_size: u32) -> (res: u32)
    requires
        (if page > 0 {
            page - 1
        } else {
            0
        }) * page_size <= u32::MAX,
    ensures
        res == (if page > 0 {
            page - 1
        } else {
            0
        }) * page_size,
{
    let before: u32 = if page > 0 {
        page - 1
    } else {
        0
    };
    before * page_size
}

/// The number of pages that `total` tasks fill, and at least one.
pub fn total_pages(total: u32, page_size: u32) -> (res: u32)
    requires
        page_size > 0,
    ensures
        res == (if total == 0 {
            1
        } else {
            (total + page_size - 1) / page_size as int
        }),
{
    if total == 0 {
        return 1;
    }
    let full = total / page_size;
    if total % page_size == 0 {
        assert((total + page_size - 1) / page_size as int == full) by (nonlinear_arith)
            requires
                page_size > 0,
                total % page_size == 0,
                full == total / page_size,
        ;
        full
    } else {
        assert((total + page_size - 1) / page_size as int == full + 1 && full < u32::MAX)
            by (nonlinear_arith)
            requires
                page_size > 0,
                total <= u32::MAX,
                total % page_size != 0,
                full == total / page_size,
        ;
        full + 1
    }
}

/// The pages hold every task, and no page past the last holds one.
pub proof fn law_pages_cover_tasks(total: u32, page_size: u32)
    requires
        page_size > 0,
        total > 0,
    ensures
        ({
            let pages = (total + page_size - 1) / page_size as int;
            &&& pages >= 1
            &&& (pages - 1) * page_size < total
            &&& total <= pages * page_size
        }),
{
    let pages = (total + page_size - 1) / page_size as int;
    assert(pages >= 1 && (pages - 1) * page_size < total && total <= pages * page_size)
        by (nonlinear_arith)
        requires
            page_size > 0,
            total > 0,
            pages == (total + page_size - 1) / page_size as int,
    ;
}

/// What the page of the task list offers for moving between pages.
pub struct Pager {
    pub total_pages: u32,
    pub can_go_back: bool,
    pub can_go_forward: bool,
}

/// The pager of page `current` of a list of `total` tasks.
pub fn pager(total: u32, page_size: u32, current: u32) -> (res: Pager)
    requires
        page_size > 0,
    ensures
        res.total_pages == (if total == 0 {
            1
        } else {
            (total + page_size - 1) / page_size as int
        }),
        res.can_go_back == (current > 1),
        res.can_go_forward == (current < res.total_pages),
{
    let pages = total_pages(total, page_size);
    Pager { total_pages: pages, can_go_back: current > 1, can_go_forward: current < pages }
}

/// The position of the first task in `list` with the id `id`.
pub fn find_task(list: &[Task], id: u32) -> (res: Option<usize>)
    ensures
        match res {
            Some(i) => i < list@.len() && list@[i as int].id == Some(id) && forall|j: int|
                0 <= j < i ==> list@[j].id != Some(id),
            None => forall|j: int| 0 <= j < list@.len() ==> list@[j].id != Some(id),
        },
{
    let mut i: usize = 0;
    while i < list.len()
        invariant
            i <= list@.len(),
            forall|j: int| 0 <= j < i ==> list@[j].id != Some(id),
        decreases list@.len() - i,
    {
        match list[i].id {
            Some(x) => {
                if x == id {
                    return Some(i);
                }
            },
            None => {},
        }
        i = i + 1;
    }
    None
}

/// The status that a choice in the status menu sets: the number chosen, when
/// it reads as a number and differs from the current status.
pub fn status_change(choice: &str, current: i32) -> (res: Option<i32>)
    ensures
        res == (match parse_i32(choice.spec_bytes()) {
            Some(v) => if v != current {
                Some(v)
            } else {
                None
            },
            None => None,
        }),
{
    match parse_i32_bytes(choice.as_bytes()) {
        Some(v) => if v != current {
            Some(v)
        } else {
            None
        },
        None => None,
    }
}

/// The user that a choice in the user menu names, when it reads as a number.
pub fn chosen_user(choice: &str) -> (res: Option<i64>)
    ensures
        res == parse_i64(choice.spec_bytes()),
{
    parse_i64_bytes(choice.as_bytes())
}

/// What pressing the button of the task form does.
pub enum Submission {
    /// No one was chosen to do the task; the form says so.
    MissingAssignee,
    /// The task being edited is saved under its id.
    Update { id: u32, user_id: i64 },
    /// A new task is saved, owned by the user who is logged in.
    Create { user_id: i64, owner: String },
}

/// The message of a form without a chosen assignee.
pub const MISSING_ASSIGNEE: &'static str = "请选择任务执行人";

/// What the task form does with the chosen assignee, the task being edited
/// (if any) and the user who is logged in (if any).
pub fn plan_submission(user_id: Option<i64>, editing: &Option<Task>, current_user: Option<String>) -> (res:
    Submission)
    ensures
        match user_id {
            None => res is MissingAssignee,
            Some(uid) => match editing {
                Some(t) => res == (Submission::Update {
                    id: match t.id {
                        Some(i) => i,
                        None => 0,
                    },
                    user_id: uid,
                }),
                None => res matches Submission::Create { user_id: u, owner: o } && u == uid
                    && o@ == (match current_user {
                    Some(name) => name@,
                    None => Seq::<char>::empty(),
                }),
            },
        },
{
    match user_id {
        None => Submission::MissingAssignee,
        Some(uid) => match editing {
            Some(t) => {
                let id = match t.id {
                    Some(i) => i,
                    None => 0,
                };
                Submission::Update { id, user_id: uid }
            },
            None => {
                let owner = match current_user {
                    Some(name) => name,
                    None => String::new(),
                };
                Submission::Create { user_id: uid, owner }
            },
        },
    }
}

} // verus!
