//! The transfers that are running.
use crate::text;
use vstd::prelude::*;
use vstd::string::*;

verus! {

/// Stands for the exit code of a process that has none.
pub const NO_CODE: i32 = -1;

/// What looking after the process of a transfer shows.
#[derive(Debug, Clone, Copy)]
pub enum ChildStatus {
    /// It has not ended.
    Running,
    /// It has ended, with an exit code unless something else ended it.
    Exited(Option<i32>),
    /// Nothing can be learned of it.
    Lost,
}

/// The transfers that are running, by the names that the interface gave them.
pub struct AppState {
    children: Vec<String>,
}

impl View for AppState {
    type V = Set<Seq<char>>;

    closed spec fn view(&self) -> Set<Seq<char>> {
        text::texts(self.children@).to_set()
    }
}

/// The exit code of a task that is over, as far as looking after it shows: `None` while it runs, and
/// [`NO_CODE`] where there is none.
pub open spec fn exit_code(running: Set<Seq<char>>, id: Seq<char>, status: ChildStatus) -> Option<
    i32,
> {
    if !running.contains(id) {
        Some(NO_CODE)
    } else {
        match status {
            ChildStatus::Running => None,
            ChildStatus::Exited(Some(code)) => Some(code),
            ChildStatus::Exited(None) => Some(NO_CODE),
            ChildStatus::Lost => Some(NO_CODE),
        }
    }
}

/// The tasks that are running once one was looked after: without it, if it is over.
pub open spec fn after_poll(
    running: Set<Seq<char>>,
    id: Seq<char>,
    status: ChildStatus,
) -> Set<Seq<char>> {
    if exit_code(running, id, status) is Some {
        running.remove(id)
    } else {
        running
    }
}

impl AppState {
    /// No task is listed twice.
    pub closed spec fn wf(&self) -> bool {
        text::texts(self.children@).no_duplicates()
    }

    fn position(&self, id: &str) -> (res: Option<usize>)
        ensures
            res is None ==> !self@.contains(id@),
            res matches Some(i) ==> i < self.children.len() && self.children@[i as int]@ == id@
                && self@.contains(id@),
    {
        let wanted = id.to_owned();
        let ghost ids = text::texts(self.children@);
        let mut i: usize = 0;
        while i < self.children.len()
            invariant
                i <= self.children.len(),
                wanted@ == id@,
                ids == text::texts(self.children@),
                forall|j: int| 0 <= j < i ==> #[trigger] ids[j] != id@,
            decreases self.children.len() - i,
        {
            if self.children[i] == wanted {
                assert(ids[i as int] == id@);
                return Some(i);
            }
            assert(ids[i as int] != id@);
            i = i + 1;
        }
        None
    }

    /// Tells whether a task is running.
    pub fn contains(&self, id: &str) -> (res: bool)
        ensures
            res == self@.contains(id@),
    {
        self.position(id).is_some()
    }

    /// Refuses to start a task that is running already.
    pub fn check_free(&self, id: &str) -> (res: Result<(), String>)
        ensures
            res is Ok <==> !self@.contains(id@),
            res matches Err(e) ==> e@ == "任务 "@ + id@ + " 已在运行"@,
    {
        if self.contains(id) {
            let mut error = String::new();
            error.append("任务 ");
            error.append(id);
            error.append(" 已在运行");
            assert(error@ =~= "任务 "@ + id@ + " 已在运行"@);
            return Err(error);
        }
        Ok(())
    }

    /// Notes that a task is running.
    pub fn insert(&mut self, id: &str)
        requires
            old(self).wf(),
        ensures
            final(self).wf(),
            final(self)@ == old(self)@.insert(id@),
    {
        let ghost ids = text::texts(self.children@);
        match self.position(id) {
            Some(_) => {
                assert(self@ =~= self@.insert(id@));
            },
            None => {
                self.children.push(id.to_owned());
                proof {
                    let now = text::texts(self.children@);
                    assert(now =~= ids.push(id@));
                    assert forall|x: Seq<char>| now.to_set().contains(x) == ids.to_set().insert(
                        id@,
                    ).contains(x) by {
                        if ids.contains(x) {
                            let k = choose|k: int| 0 <= k < ids.len() && ids[k] == x;
                            assert(now[k] == x);
                        }
                        if x == id@ {
                            assert(now[ids.len() as int] == x);
                        }
                    }
                    assert(now.to_set() =~= ids.to_set().insert(id@));
                    assert forall|i: int, j: int|
                        0 <= i < now.len() && 0 <= j < now.len() && i != j implies now[i]
                        != now[j] by {
                        if i < ids.len() {
                            assert(ids.contains(ids[i]));
                        }
                        if j < ids.len() {
                            assert(ids.contains(ids[j]));
                        }
                    }
                }
            },
        }
    }

    /// Looks after a task: gives its exit code and forgets it, if it is over. Of other tasks nothing
    /// changes.
    pub fn poll(&mut self, id: &str, status: ChildStatus) -> (code: Option<i32>)
        requires
            old(self).wf(),
        ensures
            final(self).wf(),
            code == exit_code(old(self)@, id@, status),
            final(self)@ == after_poll(old(self)@, id@, status),
    {
        let position = self.position(id);
        let i: usize = match position {
            Some(i) => i,
            None => {
                assert(self@.remove(id@) =~= self@);
                return Some(NO_CODE);
            },
        };
        let code: i32 = match status {
            ChildStatus::Running => {
                return None;
            },
            ChildStatus::Exited(Some(code)) => code,
            ChildStatus::Exited(None) => NO_CODE,
            ChildStatus::Lost => NO_CODE,
        };
        let ghost ids = text::texts(self.children@);
        self.children.remove(i);
        proof {
            let now = text::texts(self.children@);
            assert(now =~= ids.remove(i as int));
            assert forall|x: Seq<char>| now.to_set().contains(x) == ids.to_set().remove(
                id@,
            ).contains(x) by {
                if now.contains(x) {
                    let k = choose|k: int| 0 <= k < now.len() && now[k] == x;
                    if k < i {
                        assert(ids[k] == x && ids[k] != ids[i as int]);
                    } else {
                        assert(ids[k + 1] == x && ids[k + 1] != ids[i as int]);
                    }
                }
                if ids.contains(x) && x != id@ {
                    let k = choose|k: int| 0 <= k < ids.len() && ids[k] == x;
                    if k < i {
                        assert(now[k] == x);
                    } else {
                        assert(now[k - 1] == x);
                    }
                }
            }
            assert(now.to_set() =~= ids.to_set().remove(id@));
        }
        Some(code)
    }

    /// The tasks to stop when the user cancels one, or all where none is named. They stay listed:
    /// looking after them notes that they ended, and tells the interface.
    pub fn cancel_transfer(&self, id: Option<&str>) -> (res: Result<Vec<String>, String>)
        requires
            self.wf(),
        ensures
            match id {
                Some(id) => match res {
                    Ok(ids) => self@.contains(id@) && text::texts(ids@) == seq![id@],
                    Err(e) => !self@.contains(id@) && e@ == "这个任务已经不在运行了"@,
                },
                None => match res {
                    Ok(ids) => self@ != Set::<Seq<char>>::empty() && text::texts(ids@).to_set()
                        == self@ && text::texts(ids@).no_duplicates(),
                    Err(e) => self@ == Set::<Seq<char>>::empty() && e@ == "没有正在运行的传输任务"@,
                },
            },
    {
        let ghost all = text::texts(self.children@);
        match id {
            Some(id) => {
                if self.contains(id) {
                    let mut ids: Vec<String> = Vec::new();
                    ids.push(id.to_owned());
                    assert(text::texts(ids@) =~= seq![id@]);
                    Ok(ids)
                } else {
                    Err("这个任务已经不在运行了".to_owned())
                }
            },
            None => {
                if self.children.len() == 0 {
                    assert(self@ =~= Set::<Seq<char>>::empty());
                    return Err("没有正在运行的传输任务".to_owned());
                }
                let mut ids: Vec<String> = Vec::new();
                let mut i: usize = 0;
                while i < self.children.len()
                    invariant
                        i <= self.children.len(),
                        ids@ == self.children@.take(i as int),
                    decreases self.children.len() - i,
                {
                    ids.push(self.children[i].clone());
                    i = i + 1;
                    assert(ids@ =~= self.children@.take(i as int));
                }
                assert(ids@ =~= self.children@);
                assert(all.to_set().contains(all[0]));
                Ok(ids)
            },
        }
    }
}

/// What cancelling comes to once a process was told to stop. Where the user named the task, it fails
/// if that failed; where all are cancelled, it does not.
pub fn after_kill(named: bool, killed: Result<(), String>) -> (res: Result<(), String>)
    ensures
        res is Err <==> named && killed is Err,
        res matches Err(e) ==> e@ == killed->Err_0@,
{
    match killed {
        Err(error) if named => Err(error),
        _ => Ok(()),
    }
}

impl Default for AppState {
    /// Nothing is running.
    fn default() -> (res: Self)
        ensures
            res.wf(),
            res@ == Set::<Seq<char>>::empty(),
    {
        let res = AppState { children: Vec::new() };
        assert(res@ =~= Set::<Seq<char>>::empty());
        res
    }
}

/// Looking after one task changes nothing for the others.
pub proof fn lemma_poll_leaves_others(
    running: Set<Seq<char>>,
    id: Seq<char>,
    other: Seq<char>,
    status: ChildStatus,
)
    requires
        id != other,
    ensures
        after_poll(running, id, status).contains(other) == running.contains(other),
{
}

/// A task is looked after until it is over, and may be started again then: a task that gave its exit
/// code is not listed any more, and one that gave none still is.
pub proof fn lemma_over_is_forgotten(running: Set<Seq<char>>, id: Seq<char>, status: ChildStatus)
    ensures
        exit_code(running, id, status) is Some <==> !after_poll(running, id, status).contains(id),
{
}

/// The exit code of a task that ended is that of its process, whatever it is; a task that is not
/// listed, or whose process has no code or cannot be looked after, ends with -1; and a task that runs
/// has none.
pub proof fn lemma_exit_codes(running: Set<Seq<char>>, id: Seq<char>, code: i32, status: ChildStatus)
    ensures
        running.contains(id) ==> exit_code(running, id, ChildStatus::Exited(Some(code))) == Some(code),
        running.contains(id) ==> exit_code(running, id, ChildStatus::Running) is None,
        running.contains(id) ==> exit_code(running, id, ChildStatus::Exited(None)) == Some(-1i32),
        running.contains(id) ==> exit_code(running, id, ChildStatus::Lost) == Some(-1i32),
        !running.contains(id) ==> exit_code(running, id, status) == Some(-1i32),
        running.contains(id) && status is Running ==> after_poll(running, id, status) == running,
        running.contains(id) && !(status is Running) ==> after_poll(running, id, status)
            == running.remove(id),
        !running.contains(id) ==> after_poll(running, id, status) == running,
{
    if !running.contains(id) {
        assert(running.remove(id) =~= running);
    }
}

} // verus!
