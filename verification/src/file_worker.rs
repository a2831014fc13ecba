use vstd::prelude::*;
use crate::ical::{
    calendar_head, calendar_tail, get_tag, needs_uid, new_uid, uuid_text, task_views, save_tasks as save_ical, uid_for, utc_timestamp,
    vtodo_text, vtodo_text_for, IcalError, calendar_text,
};
use crate::lines::{is_ws, lemma_lines_append, lemma_lines_single, lines, lines_of, strip_cr, trim, trim_str};
use crate::vtodo::lemma_filter_push;
use crate::options::SavePolicy;
use crate::defaults::default_autosave_duration;
use crate::task::{Task, TaskView, dates_valid, writable, parse_task, task_on, task_line, task_to_line};
use crate::date::{Date, valid_date, local_today};
use crate::text::{chars_of, concat_str, contains_str, copy_string, push_char, push_str, str_eq, to_string, views};
use crate::todo::{ToDo, Version};

verus! {

/// Where and how the task files are read and written.
#[derive(Debug)]
pub struct FileWorkerConfig {
    /// The path of the todo.txt file (or iCalendar file or directory).
    pub todo_path: String,
    /// The path of the archive of finished tasks; without one they stay in the todo file.
    pub archive_path: Option<String>,
    pub save_policy: SavePolicy,
    /// The interval between automatic saves, in seconds.
    pub autosave_duration: u64,
    /// Whether changes of the files on disk are watched for.
    pub file_watcher: bool,
}

/// The default path of the todo file: `todo.txt` in the home directory, or under `~` when
/// the home directory is unknown.
pub open spec fn default_todo_path_text(home: Option<Seq<char>>) -> Seq<char> {
    match home {
        Some(h) => h + "/todo.txt"@,
        None => "~"@ + "/todo.txt"@,
    }
}

/// The default path of the todo file, given the home directory if it is known.
pub fn default_todo_path(home: Option<&str>) -> (p: String)
    ensures
        p@ == default_todo_path_text(match home {
            Some(h) => Some(h@),
            None => None,
        }),
{
    match home {
        Some(h) => concat_str(h, "/todo.txt"),
        None => concat_str("~", "/todo.txt"),
    }
}


/// Whether files are watched by default.
pub fn default_file_watcher() -> (b: bool)
    ensures
        b,
{
    true
}

impl FileWorkerConfig {
    /// The default configuration, given the home directory if it is known: the todo file in
    /// it, no archive, automatic saves every 900 seconds, and a file watcher.
    pub fn default_with_home(home: Option<&str>) -> (c: FileWorkerConfig)
        ensures
            c.todo_path@ == default_todo_path_text(match home {
                Some(h) => Some(h@),
                None => None,
            }),
            c.archive_path is None,
            c.save_policy == SavePolicy::AutoSave,
            c.autosave_duration == 900,
            c.file_watcher,
    {
        FileWorkerConfig {
            todo_path: default_todo_path(home),
            archive_path: None,
            save_policy: SavePolicy::AutoSave,
            autosave_duration: default_autosave_duration(),
            file_watcher: default_file_watcher(),
        }
    }
}

/// What `Path::extension` gives for a path: the part of its file name after the last dot,
/// unless the name has no dot or only a leading one.
pub uninterp spec fn path_extension(p: Seq<char>) -> Option<Seq<char>>;

/// Where the last dot of a text stands, or -1 when it has none.
pub open spec fn last_dot(n: Seq<char>) -> int
    decreases n.len(),
{
    if n.len() == 0 {
        -1
    } else if n.last() == '.' {
        n.len() - 1
    } else {
        last_dot(n.drop_last())
    }
}

/// A bare file name: not empty, without '/', and neither `.` nor `..`.
pub open spec fn bare_file_name(n: Seq<char>) -> bool {
    n.len() > 0 && !n.contains('/') && n != seq!['.'] && n != seq!['.', '.']
}

/// The extension of a bare file name: the text after its last dot, when that dot is not its
/// first character.
pub open spec fn name_extension(n: Seq<char>) -> Option<Seq<char>> {
    let k = last_dot(n);
    if k <= 0 {
        None
    } else {
        Some(n.subrange(k + 1, n.len() as int))
    }
}

/// The extension of a path's file name.
/// Trusted: calls `std::path::Path::extension` on the path and converts the result back to a
/// string (it came from a string, so it is valid Unicode); the result is named
/// `path_extension`. For a bare file name the documentation says what it is: the file name
/// is the path itself, and the extension is the text after its last dot, unless the name has
/// no dot or only a leading one (see `name_extension`).
#[verifier::external_body]
pub(crate) fn file_extension(path: &str) -> (r: Option<String>)
    ensures
        r matches Some(e) ==> path_extension(path@) == Some(e@),
        r is None ==> path_extension(path@) is None,
        bare_file_name(path@) ==> match r {
            Some(e) => name_extension(path@) == Some(e@),
            None => name_extension(path@) is None,
        },
{
    std::path::Path::new(path).extension().and_then(|e| e.to_str()).map(|e| e.to_string())
}

/// The formats of the task files.
#[derive(PartialEq, Eq, Structural, Debug, Copy, Clone)]
pub enum FileFormat {
    TodoTxt,
    ICal,
}

/// The extension names an iCalendar file.
pub open spec fn is_ical_extension(e: Option<Seq<char>>) -> bool {
    e == Some("ics"@) || e == Some("ical"@)
}

/// The format of a file by its extension: `ics` and `ical` are iCalendar, anything else
/// todo.txt.
pub open spec fn format_of(p: Seq<char>) -> FileFormat {
    if is_ical_extension(path_extension(p)) {
        FileFormat::ICal
    } else {
        FileFormat::TodoTxt
    }
}

/// Whether the path has an iCalendar extension.
fn has_ical_extension(path: &str) -> (b: bool)
    ensures
        b == is_ical_extension(path_extension(path@)),
{
    match file_extension(path) {
        Some(e) => str_eq(e.as_str(), "ics") || str_eq(e.as_str(), "ical"),
        None => false,
    }
}

impl FileFormat {
    /// The format of a file by its extension (see `format_of`).
    pub fn from_path(path: &str) -> (f: FileFormat)
        ensures
            f == format_of(path@),
    {
        if has_ical_extension(path) {
            FileFormat::ICal
        } else {
            FileFormat::TodoTxt
        }
    }

    /// Whether both paths use the same format.
    pub fn matches(path_a: &str, path_b: &str) -> (b: bool)
        ensures
            b == (format_of(path_a@) == format_of(path_b@)),
    {
        let a = FileFormat::from_path(path_a);
        let b = FileFormat::from_path(path_b);
        a == b
    }
}

/// The storage that the configuration selects.
#[derive(PartialEq, Eq, Structural, Debug, Copy, Clone)]
pub enum FormatKind {
    /// A directory of iCalendar files, one per task.
    ICalDirectory,
    /// One iCalendar file.
    ICalSingleFile,
    /// A todo.txt file, with an optional archive.
    TodoTxt,
}

/// Why the configured storage cannot be used.
#[derive(PartialEq, Eq, Structural, Debug, Copy, Clone)]
pub enum FileFormatError {
    /// An archive was configured for iCalendar storage, which has none.
    ArchiveWithICal,
}

/// The storage that the configuration selects, given whether the todo path is a directory: a
/// directory holds iCalendar files, a file with an iCalendar extension is one calendar, and
/// anything else is todo.txt; iCalendar storage takes no archive.
pub open spec fn storage_of(todo_path: Seq<char>, has_archive: bool, is_dir: bool) -> Result<FormatKind, FileFormatError> {
    if is_dir || is_ical_extension(path_extension(todo_path)) {
        if has_archive {
            Err(FileFormatError::ArchiveWithICal)
        } else if is_dir {
            Ok(FormatKind::ICalDirectory)
        } else {
            Ok(FormatKind::ICalSingleFile)
        }
    } else {
        Ok(FormatKind::TodoTxt)
    }
}

/// Selects the storage for the configuration (see `storage_of`); `todo_is_dir` tells whether
/// the todo path is a directory on disk.
pub fn new_file_format(config: &FileWorkerConfig, todo_is_dir: bool) -> (r: Result<FormatKind, FileFormatError>)
    ensures
        r == storage_of(config.todo_path@, config.archive_path is Some, todo_is_dir),
{
    if todo_is_dir {
        return match config.archive_path {
            Some(_) => Err(FileFormatError::ArchiveWithICal),
            None => Ok(FormatKind::ICalDirectory),
        };
    }
    if has_ical_extension(config.todo_path.as_str()) {
        match config.archive_path {
            None => Ok(FormatKind::ICalSingleFile),
            Some(_) => Err(FileFormatError::ArchiveWithICal),
        }
    } else {
        Ok(FormatKind::TodoTxt)
    }
}

/// A directory of iCalendar files, one per task.
#[derive(Debug)]
pub struct ICal {
    pub dir_path: String,
}

impl ICal {
    pub fn new(config: &FileWorkerConfig) -> (s: ICal)
        ensures
            s.dir_path@ == config.todo_path@,
    {
        ICal { dir_path: copy_string(&config.todo_path) }
    }
}

/// The file that saving task `t` into a directory writes, at time `now` and with `fresh_uid`
/// if it needs a new identifier: `<uid>.ics`, holding a calendar with the task's VTODO alone.
pub open spec fn task_file(t: TaskView, now: Seq<char>, fresh_uid: Seq<char>) -> Result<(Seq<char>, Seq<char>), IcalError> {
    match vtodo_text_for(t, now, fresh_uid) {
        Err(e) => Err(e),
        Ok(v) => Ok((uid_for(t, fresh_uid) + ".ics"@, calendar_head() + v + calendar_tail())),
    }
}

/// The files for the first `n` tasks, in order, or the error of the first task that cannot be
/// saved.
pub open spec fn task_files(ts: Seq<TaskView>, nows: Seq<Seq<char>>, uids: Seq<Seq<char>>, n: int) -> Result<Seq<(Seq<char>, Seq<char>)>, IcalError>
    decreases n,
{
    if n <= 0 {
        Ok(seq![])
    } else {
        match task_files(ts, nows, uids, n - 1) {
            Err(e) => Err(e),
            Ok(fs) => match task_file(ts[n - 1], nows[n - 1], uids[n - 1]) {
                Err(e) => Err(e),
                Ok(f) => Ok(fs.push(f)),
            },
        }
    }
}

/// Once a task cannot be saved, the files stay at that error.
proof fn lemma_task_files_error_stays(ts: Seq<TaskView>, nows: Seq<Seq<char>>, uids: Seq<Seq<char>>, n: int, m: int, e: IcalError)
    requires
        1 <= n <= m,
        task_files(ts, nows, uids, n) == Err::<Seq<(Seq<char>, Seq<char>)>, IcalError>(e),
    ensures
        task_files(ts, nows, uids, m) == Err::<Seq<(Seq<char>, Seq<char>)>, IcalError>(e),
    decreases m - n,
{
    if m > n {
        lemma_task_files_error_stays(ts, nows, uids, n, m - 1, e);
    }
}

/// The names and texts of a list of files.
pub open spec fn file_views(fs: Seq<(String, String)>) -> Seq<(Seq<char>, Seq<char>)> {
    fs.map_values(|f: (String, String)| (f.0@, f.1@))
}

/// The `.ics` files among `existing` whose names are not in `written`: those that saving into
/// the directory removes.
pub open spec fn orphans(existing: Seq<Seq<char>>, written: Seq<Seq<char>>) -> Seq<Seq<char>> {
    existing.filter(|n: Seq<char>| path_extension(n) == Some("ics"@) && !written.contains(n))
}

/// The files that loading a directory of iCalendar files reads: the `.ics` names among the
/// directory's entries `names`, in their order.
pub fn directory_load_plan(names: &Vec<String>) -> (r: Vec<String>)
    ensures
        views(r@) == views(names@).filter(|n: Seq<char>| path_extension(n) == Some("ics"@)),
{
    let ghost keep = |n: Seq<char>| path_extension(n) == Some("ics"@);
    let mut r: Vec<String> = Vec::new();
    let mut j: usize = 0;
    proof {
        reveal(Seq::filter);
        assert(views(names@).take(0) =~= Seq::<Seq<char>>::empty());
    }
    while j < names.len()
        invariant
            j <= names@.len(),
            keep == (|n: Seq<char>| path_extension(n) == Some("ics"@)),
            views(r@) == views(names@).take(j as int).filter(keep),
        decreases names@.len() - j,
    {
        let n = &names[j];
        let is_ics = match file_extension(n.as_str()) {
            Some(e) => str_eq(e.as_str(), "ics"),
            None => false,
        };
        proof {
            reveal(Seq::filter);
            reveal_strlit("ics");
            assert(views(names@).take(j + 1).drop_last() =~= views(names@).take(j as int));
            assert(views(names@)[j as int] == n@);
        }
        let ghost rb = r@;
        if is_ics {
            r.push(copy_string(n));
            assert(views(r@) =~= views(rb).push(n@));
        }
        j = j + 1;
    }
    proof {
        assert(views(names@).take(names@.len() as int) =~= views(names@));
    }
    r
}

/// What saving tasks into a directory of iCalendar files does, task `i` saved at time
/// `nows[i]` and, when it needs a new identifier, with `uids[i]`: the files to write, in order
/// (see `task_files`), and the `.ics` files among the `existing` names that no task is written
/// to, which are removed; or the error of the first task that cannot be saved.
pub fn directory_save_plan_with(tasks: &[Task], existing: &Vec<String>, nows: &Vec<String>, uids: &Vec<String>) -> (r: Result<(Vec<(String, String)>, Vec<String>), IcalError>)
    requires
        nows@.len() == tasks@.len(),
        uids@.len() == tasks@.len(),
        forall|i: int| 0 <= i < tasks@.len() ==> dates_valid(#[trigger] tasks@[i]@),
    ensures
        match r {
            Ok((files, removed)) => {
                &&& task_files(task_views(tasks@), views(nows@), views(uids@), tasks@.len() as int) == Ok::<Seq<(Seq<char>, Seq<char>)>, IcalError>(file_views(files@))
                &&& views(removed@) == orphans(views(existing@), file_views(files@).map_values(|f: (Seq<char>, Seq<char>)| f.0))
            },
            Err(e) => task_files(task_views(tasks@), views(nows@), views(uids@), tasks@.len() as int) == Err::<Seq<(Seq<char>, Seq<char>)>, IcalError>(e),
        },
{
    let ghost ts = task_views(tasks@);
    let mut files: Vec<(String, String)> = Vec::new();
    let mut names: Vec<String> = Vec::new();
    let mut i: usize = 0;
    assert(file_views(files@) =~= Seq::<(Seq<char>, Seq<char>)>::empty());
    assert(views(names@) =~= file_views(files@).map_values(|f: (Seq<char>, Seq<char>)| f.0));
    while i < tasks.len()
        invariant
            i <= tasks@.len(),
            nows@.len() == tasks@.len(),
            uids@.len() == tasks@.len(),
            ts == task_views(tasks@),
            forall|k: int| 0 <= k < tasks@.len() ==> dates_valid(#[trigger] tasks@[k]@),
            task_files(ts, views(nows@), views(uids@), i as int) == Ok::<Seq<(Seq<char>, Seq<char>)>, IcalError>(file_views(files@)),
            views(names@) == file_views(files@).map_values(|f: (Seq<char>, Seq<char>)| f.0),
        decreases tasks@.len() - i,
    {
        let task = &tasks[i];
        assert(dates_valid(tasks@[i as int]@));
        match vtodo_text(task, nows[i].as_str(), uids[i].as_str()) {
            Ok(v) => {
                let uid = match get_tag(&task.tags, "_ical_uid") {
                    Some(u) => u,
                    None => copy_string(&uids[i]),
                };
                proof {
                    reveal_strlit("_ical_uid");
                }
                let name = concat_str(uid.as_str(), ".ics");
                let mut text = String::new();
                push_str(&mut text, "BEGIN:VCALENDAR\nVERSION:2.0\nPRODID:-//todotxt-tui//EN\n");
                push_str(&mut text, v.as_str());
                push_str(&mut text, "END:VCALENDAR\n");
                let ghost before = files@;
                let ghost nbefore = names@;
                names.push(copy_string(&name));
                files.push((name, text));
                proof {
                    assert(file_views(files@) =~= file_views(before).push((files@.last().0@, files@.last().1@)));
                    assert(views(names@) =~= views(nbefore).push(names@.last()@));
                    assert(file_views(files@).map_values(|f: (Seq<char>, Seq<char>)| f.0) =~= file_views(before).map_values(
                        |f: (Seq<char>, Seq<char>)| f.0,
                    ).push(files@.last().0@));
                }
            },
            Err(e) => {
                proof {
                    lemma_task_files_error_stays(ts, views(nows@), views(uids@), i + 1, tasks@.len() as int, e);
                }
                return Err(e);
            },
        }
        i = i + 1;
    }
    let ghost written = views(names@);
    let ghost keep = |n: Seq<char>| path_extension(n) == Some("ics"@) && !written.contains(n);
    let mut removed: Vec<String> = Vec::new();
    let mut j: usize = 0;
    proof {
        reveal(Seq::filter);
        assert(views(existing@).take(0) =~= Seq::<Seq<char>>::empty());
    }
    while j < existing.len()
        invariant
            j <= existing@.len(),
            written == views(names@),
            keep == (|n: Seq<char>| path_extension(n) == Some("ics"@) && !written.contains(n)),
            views(removed@) == views(existing@).take(j as int).filter(keep),
        decreases existing@.len() - j,
    {
        let n = &existing[j];
        let is_ics = match file_extension(n.as_str()) {
            Some(e) => str_eq(e.as_str(), "ics"),
            None => false,
        };
        proof {
            reveal(Seq::filter);
            reveal_strlit("ics");
            assert(views(existing@).take(j + 1).drop_last() =~= views(existing@).take(j as int));
            assert(views(existing@)[j as int] == n@);
        }
        let ghost rb = removed@;
        if is_ics && !contains_str(&names, n.as_str()) {
            removed.push(copy_string(n));
            assert(views(removed@) =~= views(rb).push(n@));
        }
        j = j + 1;
    }
    proof {
        assert(views(existing@).take(existing@.len() as int) =~= views(existing@));
    }
    Ok((files, removed))
}

/// What saving tasks into a directory of iCalendar files does (see
/// `directory_save_plan_with`): each task is stamped with the current time, and a task without
/// identifier gets a new random one.
pub fn directory_save_plan(tasks: &[Task], existing: &Vec<String>) -> (r: Result<(Vec<(String, String)>, Vec<String>), IcalError>)
    requires
        forall|i: int| 0 <= i < tasks@.len() ==> dates_valid(#[trigger] tasks@[i]@),
    ensures
        exists|nows: Seq<Seq<char>>, uids: Seq<Seq<char>>|
            nows.len() == tasks@.len() && uids.len() == tasks@.len() && (forall|i: int| 0 <= i < uids.len() ==> uuid_text(
                #[trigger] uids[i],
            ) || uids[i].len() == 0) && match r {
                Ok((files, removed)) => {
                    &&& #[trigger] task_files(task_views(tasks@), nows, uids, tasks@.len() as int) == Ok::<Seq<(Seq<char>, Seq<char>)>, IcalError>(file_views(files@))
                    &&& views(removed@) == orphans(views(existing@), file_views(files@).map_values(|f: (Seq<char>, Seq<char>)| f.0))
                },
                Err(e) => task_files(task_views(tasks@), nows, uids, tasks@.len() as int) == Err::<Seq<(Seq<char>, Seq<char>)>, IcalError>(e),
            },
{
    let mut nows: Vec<String> = Vec::new();
    let mut uids: Vec<String> = Vec::new();
    let mut i: usize = 0;
    while i < tasks.len()
        invariant
            i <= tasks@.len(),
            nows@.len() == i,
            uids@.len() == i,
            forall|k: int| 0 <= k < i ==> uuid_text(#[trigger] uids@[k]@) || uids@[k]@.len() == 0,
        decreases tasks@.len() - i,
    {
        nows.push(utc_timestamp());
        if needs_uid(&tasks[i]) {
            uids.push(new_uid());
        } else {
            uids.push(String::new());
        }
        i = i + 1;
    }
    let r = directory_save_plan_with(tasks, existing, &nows, &uids);
    proof {
        assert(views(nows@).len() == tasks@.len());
        assert(views(uids@).len() == tasks@.len());
        assert forall|k: int| 0 <= k < views(uids@).len() implies uuid_text(#[trigger] views(uids@)[k]) || views(uids@)[k].len() == 0 by {
            assert(views(uids@)[k] == uids@[k]@);
        }
    }
    r
}

/// One iCalendar file holding all tasks.
#[derive(Debug)]
pub struct ICalSingleFile {
    pub path: String,
}

impl ICalSingleFile {
    pub fn new(config: &FileWorkerConfig) -> (s: ICalSingleFile)
        ensures
            s.path@ == config.todo_path@,
    {
        ICalSingleFile { path: copy_string(&config.todo_path) }
    }

    /// The text of the calendar that saving writes: the pending tasks, then the done ones
    /// (see `ical::save_tasks`).
    pub fn save_text(&self, todo: &ToDo) -> (r: Result<String, IcalError>)
        requires
            forall|i: int| 0 <= i < todo.pending@.len() ==> dates_valid(#[trigger] todo.pending@[i]@),
            forall|i: int| 0 <= i < todo.done@.len() ==> dates_valid(#[trigger] todo.done@[i]@),
        ensures
            exists|nows: Seq<Seq<char>>, uids: Seq<Seq<char>>|
                nows.len() == todo.pending@.len() + todo.done@.len() && uids.len() == nows.len() && match r {
                    Ok(s) => #[trigger] calendar_text(task_views(todo.pending@) + task_views(todo.done@), nows, uids)
                        == Ok::<Seq<char>, IcalError>(s@),
                    Err(e) => calendar_text(task_views(todo.pending@) + task_views(todo.done@), nows, uids) == Err::<
                        Seq<char>,
                        IcalError,
                    >(e),
                },
    {
        let all = all_tasks(todo);
        let r = save_ical(all.as_slice());
        assert(task_views(all@) =~= task_views(todo.pending@) + task_views(todo.done@));
        r
    }
}

/// A copy of a task.
pub fn copy_task(t: &Task) -> (r: Task)
    ensures
        r@ == t@,
{
    let mut contexts: Vec<String> = Vec::new();
    let mut projects: Vec<String> = Vec::new();
    let mut hashtags: Vec<String> = Vec::new();
    let mut tags: Vec<(String, String)> = Vec::new();
    copy_names(&t.contexts, &mut contexts);
    copy_names(&t.projects, &mut projects);
    copy_names(&t.hashtags, &mut hashtags);
    let mut i: usize = 0;
    while i < t.tags.len()
        invariant
            i <= t.tags@.len(),
            crate::task::tag_views(tags@) == crate::task::tag_views(t.tags@).take(i as int),
        decreases t.tags@.len() - i,
    {
        let ghost before = crate::task::tag_views(tags@);
        let k = copy_string(&t.tags[i].0);
        let v = copy_string(&t.tags[i].1);
        tags.push((k, v));
        proof {
            assert(crate::task::tag_views(tags@) =~= before.push((t.tags@[i as int].0@, t.tags@[i as int].1@)));
            assert(crate::task::tag_views(t.tags@).take(i + 1) =~= crate::task::tag_views(t.tags@).take(i as int).push(
                (t.tags@[i as int].0@, t.tags@[i as int].1@),
            ));
        }
        i = i + 1;
    }
    assert(crate::task::tag_views(t.tags@).take(t.tags@.len() as int) =~= crate::task::tag_views(t.tags@));
    Task {
        subject: copy_string(&t.subject),
        priority: t.priority,
        create_date: t.create_date,
        finish_date: t.finish_date,
        finished: t.finished,
        threshold_date: t.threshold_date,
        due_date: t.due_date,
        contexts,
        projects,
        hashtags,
        tags,
    }
}

/// Copies the names of `from` into the empty `to`.
fn copy_names(from: &Vec<String>, to: &mut Vec<String>)
    requires
        old(to)@.len() == 0,
    ensures
        views(final(to)@) == views(from@),
{
    let mut i: usize = 0;
    while i < from.len()
        invariant
            i <= from@.len(),
            views(to@) == views(from@).take(i as int),
        decreases from@.len() - i,
    {
        let ghost before = views(to@);
        let x = copy_string(&from[i]);
        to.push(x);
        proof {
            assert(views(to@) =~= before.push(from@[i as int]@));
            assert(views(from@).take(i + 1) =~= views(from@).take(i as int).push(from@[i as int]@));
        }
        i = i + 1;
    }
    assert(views(from@).take(from@.len() as int) =~= views(from@));
}

/// Copies of the pending tasks followed by copies of the done ones.
pub fn all_tasks(todo: &ToDo) -> (r: Vec<Task>)
    ensures
        task_views(r@) == task_views(todo.pending@) + task_views(todo.done@),
        forall|i: int| 0 <= i < r@.len() ==> (#[trigger] r@[i])@ == (if i < todo.pending@.len() {
            todo.pending@[i]@
        } else {
            todo.done@[i - todo.pending@.len()]@
        }),
{
    let mut r: Vec<Task> = Vec::new();
    let mut i: usize = 0;
    while i < todo.pending.len()
        invariant
            i <= todo.pending@.len(),
            r@.len() == i,
            forall|k: int| 0 <= k < i ==> (#[trigger] r@[k])@ == todo.pending@[k]@,
        decreases todo.pending@.len() - i,
    {
        r.push(copy_task(&todo.pending[i]));
        i = i + 1;
    }
    let mut j: usize = 0;
    while j < todo.done.len()
        invariant
            j <= todo.done@.len(),
            r@.len() == todo.pending@.len() + j,
            forall|k: int| 0 <= k < todo.pending@.len() ==> (#[trigger] r@[k])@ == todo.pending@[k]@,
            forall|k: int| todo.pending@.len() <= k < r@.len() ==> (#[trigger] r@[k])@ == todo.done@[k - todo.pending@.len()]@,
        decreases todo.done@.len() - j,
    {
        r.push(copy_task(&todo.done[j]));
        j = j + 1;
    }
    assert(task_views(r@) =~= task_views(todo.pending@) + task_views(todo.done@));
    r
}

/// The tasks that a todo.txt text holds on the day `today`: each line, trimmed, that is not
/// empty, read as a task.
pub open spec fn todotxt_tasks(text: Seq<char>, today: Date) -> Seq<TaskView> {
    lines(text).map_values(|l: Seq<char>| trim(l)).filter(|l: Seq<char>| l.len() > 0).map_values(
        |l: Seq<char>| task_on(l, today),
    )
}

/// The todo.txt lines of the first `n` tasks, each ended by a line feed.
pub open spec fn todotxt_text(ts: Seq<TaskView>) -> Seq<char>
    decreases ts.len(),
{
    if ts.len() == 0 {
        seq![]
    } else {
        todotxt_text(ts.drop_last()) + task_line(ts.last()) + seq!['\n']
    }
}

/// A todo.txt line that the reader takes as it is: not empty, without line breaks, and
/// without white space at either end.
pub open spec fn plain_line(l: Seq<char>) -> bool {
    &&& l.len() > 0
    &&& !l.contains('\n')
    &&& !is_ws(l[0])
    &&& !is_ws(l.last())
}

/// Saving tasks as todo.txt and reading the text back on a day `today` gives the same tasks,
/// in order, when each task's line is plain and reads back as that task on that day.
#[verifier::spinoff_prover]
#[verifier::rlimit(40)]
pub proof fn lemma_todotxt_round_trip(ts: Seq<TaskView>, today: Date)
    requires
        forall|i: int| 0 <= i < ts.len() ==> plain_line(#[trigger] task_line(ts[i])) && task_on(task_line(ts[i]), today) == ts[i],
    ensures
        todotxt_tasks(todotxt_text(ts), today) == ts,
    decreases ts.len(),
{
    let tr = |l: Seq<char>| trim(l);
    let ne = |l: Seq<char>| l.len() > 0;
    let pt = |l: Seq<char>| task_on(l, today);
    if ts.len() == 0 {
        assert(lines(Seq::<char>::empty()) == Seq::<Seq<char>>::empty());
        reveal(Seq::filter);
        assert(todotxt_tasks(todotxt_text(ts), today) =~= ts);
    } else {
        let d = ts.drop_last();
        assert forall|i: int| 0 <= i < d.len() implies plain_line(#[trigger] task_line(d[i])) && task_on(task_line(d[i]), today) == d[i] by {
            assert(d[i] == ts[i]);
        }
        lemma_todotxt_round_trip(d, today);
        let a = todotxt_text(d);
        let l = task_line(ts.last());
        assert(plain_line(task_line(ts[ts.len() - 1])));
        assert(a.len() == 0 || a.last() == '\n');
        lemma_lines_append(a, l + seq!['\n']);
        assert(is_ws('\r'));
        assert(strip_cr(l) == l);
        lemma_lines_single(l);
        assert(todotxt_text(ts) =~= a + (l + seq!['\n']));
        assert(trim(l) == l);
        let la = lines(a);
        assert(lines(todotxt_text(ts)) == la + seq![l]);
        assert((la + seq![l]).map_values(tr) =~= la.map_values(tr).push(l));
        lemma_filter_push(la.map_values(tr), l, ne);
        let kept = la.map_values(tr).filter(ne);
        assert(kept.push(l).map_values(pt) =~= kept.map_values(pt).push(task_on(l, today)));
        assert(kept.map_values(pt) == d);
        assert(ts =~= d.push(ts.last()));
    }
}

/// Adds the tasks of a todo.txt text, read on today's local date, to the lists (see
/// `load_todotxt_on`).
pub fn load_todotxt(text: &str, todo: &mut ToDo)
    ensures
        exists|d: Date| #![trigger todotxt_tasks(text@, d)] valid_date(d)
            && task_views(final(todo).pending@) == task_views(old(todo).pending@) + todotxt_tasks(text@, d).filter(
                |t: TaskView| !t.finished,
            ) && task_views(final(todo).done@) == task_views(old(todo).done@) + todotxt_tasks(text@, d).filter(
                |t: TaskView| t.finished,
            ),
        final(todo).state == old(todo).state,
        final(todo).config == old(todo).config,
{
    let d = local_today();
    load_todotxt_on(text, todo, d);
}

/// Adds the tasks of a todo.txt text, read on the day `today`, to the lists (see
/// `todotxt_tasks`): finished ones to the done list, the others to the pending list, in order.
pub fn load_todotxt_on(text: &str, todo: &mut ToDo, today: Date)
    requires
        valid_date(today),
    ensures
        task_views(final(todo).pending@) == task_views(old(todo).pending@) + todotxt_tasks(text@, today).filter(
            |t: TaskView| !t.finished,
        ),
        task_views(final(todo).done@) == task_views(old(todo).done@) + todotxt_tasks(text@, today).filter(
            |t: TaskView| t.finished,
        ),
        final(todo).state == old(todo).state,
        final(todo).config == old(todo).config,
{
    let ls = lines_of(text);
    let ghost trimmed = views(ls@).map_values(|l: Seq<char>| trim(l));
    let ghost nonempty = |l: Seq<char>| l.len() > 0;
    let ghost pend = |t: TaskView| !t.finished;
    let ghost fin = |t: TaskView| t.finished;
    let ghost kept: Seq<Seq<char>> = seq![];
    proof {
        reveal(Seq::filter);
        assert(trimmed.take(0) =~= Seq::<Seq<char>>::empty());
        assert(task_views(todo.pending@) =~= task_views(old(todo).pending@) + Seq::<TaskView>::empty());
        assert(task_views(todo.done@) =~= task_views(old(todo).done@) + Seq::<TaskView>::empty());
    }
    let mut i: usize = 0;
    while i < ls.len()
        invariant
            i <= ls@.len(),
            views(ls@) == lines(text@),
            trimmed == views(ls@).map_values(|l: Seq<char>| trim(l)),
            nonempty == (|l: Seq<char>| l.len() > 0),
            pend == (|t: TaskView| !t.finished),
            fin == (|t: TaskView| t.finished),
            kept == trimmed.take(i as int).filter(nonempty),
            valid_date(today),
            task_views(todo.pending@) == task_views(old(todo).pending@) + kept.map_values(|l: Seq<char>| task_on(l, today)).filter(pend),
            task_views(todo.done@) == task_views(old(todo).done@) + kept.map_values(|l: Seq<char>| task_on(l, today)).filter(fin),
            todo.state == old(todo).state,
            todo.config == old(todo).config,
        decreases ls@.len() - i,
    {
        let line = trim_str(ls[i].as_str());
        proof {
            reveal(Seq::filter);
            assert(trimmed[i as int] == line@);
            assert(trimmed.take(i + 1).drop_last() =~= trimmed.take(i as int));
        }
        if chars_of(line.as_str()).len() > 0 {
            let task = parse_task(line.as_str(), today);
            let ghost tv = task@;
            let ghost (p0, d0) = (todo.pending@, todo.done@);
            todo.add_task(task);
            proof {
                let km = kept.map_values(|l: Seq<char>| task_on(l, today));
                let nk = kept.push(line@);
                let nkm = nk.map_values(|l: Seq<char>| task_on(l, today));
                assert(nkm =~= km.push(tv));
                assert(nkm.drop_last() =~= km);
                if tv.finished {
                    assert(task_views(todo.done@) =~= task_views(d0).push(tv));
                    assert(task_views(todo.pending@) =~= task_views(p0));
                } else {
                    assert(task_views(todo.pending@) =~= task_views(p0).push(tv));
                    assert(task_views(todo.done@) =~= task_views(d0));
                }
                kept = nk;
            }
        }
        i = i + 1;
    }
    proof {
        assert(trimmed.take(ls@.len() as int) =~= trimmed);
    }
}

/// Writes tasks as todo.txt lines (see `todotxt_text`).
pub fn save_todotxt(tasks: &[Task]) -> (r: String)
    requires
        forall|i: int| 0 <= i < tasks@.len() ==> writable(#[trigger] tasks@[i]@),
    ensures
        r@ == todotxt_text(task_views(tasks@)),
{
    let ghost ts = task_views(tasks@);
    let mut out = String::new();
    let mut i: usize = 0;
    assert(ts.take(0) =~= Seq::<TaskView>::empty());
    while i < tasks.len()
        invariant
            i <= tasks@.len(),
            ts == task_views(tasks@),
            forall|k: int| 0 <= k < tasks@.len() ==> writable(#[trigger] tasks@[k]@),
            out@ == todotxt_text(ts.take(i as int)),
        decreases tasks@.len() - i,
    {
        assert(writable(tasks@[i as int]@));
        let line = task_to_line(&tasks[i]);
        push_str(&mut out, line.as_str());
        push_char(&mut out, '\n');
        i = i + 1;
        assert(ts.take(i as int).drop_last() =~= ts.take(i - 1));
    }
    assert(ts.take(tasks@.len() as int) =~= ts);
    out
}

/// A todo.txt file, with an optional archive of finished tasks.
#[derive(Debug)]
pub struct TodoTxt {
    pub path: String,
    pub archive: Option<String>,
}

impl TodoTxt {
    pub fn new(config: &FileWorkerConfig) -> (s: TodoTxt)
        ensures
            s.path@ == config.todo_path@,
            match (s.archive, config.archive_path) {
                (Some(a), Some(b)) => a@ == b@,
                (None, None) => true,
                _ => false,
            },
    {
        TodoTxt {
            path: copy_string(&config.todo_path),
            archive: match &config.archive_path {
                Some(a) => Some(copy_string(a)),
                None => None,
            },
        }
    }

    /// The files that saving writes, each with its text: with an archive, the pending tasks to
    /// the todo file and the done ones to the archive; without, all tasks to the todo file.
    pub fn save_plan(&self, todo: &ToDo) -> (r: Vec<(String, String)>)
        requires
            forall|i: int| 0 <= i < todo.pending@.len() ==> writable(#[trigger] todo.pending@[i]@),
            forall|i: int| 0 <= i < todo.done@.len() ==> writable(#[trigger] todo.done@[i]@),
        ensures
            match self.archive {
                Some(a) => r@.len() == 2 && r@[0].0@ == self.path@ && r@[0].1@ == todotxt_text(task_views(todo.pending@))
                    && r@[1].0@ == a@ && r@[1].1@ == todotxt_text(task_views(todo.done@)),
                None => r@.len() == 1 && r@[0].0@ == self.path@ && r@[0].1@ == todotxt_text(
                    task_views(todo.pending@) + task_views(todo.done@),
                ),
            },
    {
        let mut r: Vec<(String, String)> = Vec::new();
        match &self.archive {
            Some(a) => {
                r.push((copy_string(&self.path), save_todotxt(todo.pending.as_slice())));
                r.push((copy_string(a), save_todotxt(todo.done.as_slice())));
            },
            None => {
                let all = all_tasks(todo);
                assert(task_views(all@).len() == all@.len());
                assert(all@.len() == todo.pending@.len() + todo.done@.len());
                assert forall|i: int| 0 <= i < all@.len() implies writable(#[trigger] all@[i]@) by {
                    if i < todo.pending@.len() {
                        assert(writable(todo.pending@[i]@));
                    } else {
                        assert(writable(todo.done@[i - todo.pending@.len()]@));
                    }
                }
                r.push((copy_string(&self.path), save_todotxt(all.as_slice())));
            },
        }
        r
    }

    /// The files that loading reads, in order: the todo file, then the archive if there is
    /// one.
    pub fn load_plan(&self) -> (r: Vec<String>)
        ensures
            r@.len() >= 1,
            r@[0]@ == self.path@,
            match self.archive {
                Some(a) => r@.len() == 2 && r@[1]@ == a@,
                None => r@.len() == 1,
            },
    {
        let mut r: Vec<String> = Vec::new();
        r.push(copy_string(&self.path));
        match &self.archive {
            Some(a) => r.push(copy_string(a)),
            None => {},
        }
        r
    }
}

/// Commands that can be sent to the file worker.
#[derive(PartialEq, Eq, Structural, Debug, Copy, Clone)]
pub enum FileWorkerCommands {
    ForceSave,
    Save,
    Load,
    Exit,
}

/// What the file worker does for a command.
#[derive(PartialEq, Eq, Structural, Debug, Copy, Clone)]
pub enum WorkerAction {
    /// Nothing to do.
    Nothing,
    /// Save the lists.
    Save,
    /// Save the lists, then record their versions as saved.
    SaveAndRecord,
    /// Load the lists from the files, then record their versions.
    LoadAndRecord,
    /// Stop the worker.
    Stop,
}

/// The state of the file worker: the versions of the lists when they were last saved or
/// loaded, and how many change notifications of its own saves are still to come.
#[derive(Debug, Copy, Clone)]
pub struct WorkerState {
    pub versions: (usize, usize),
    pub save_queue: usize,
}

/// How many files a save writes: the todo file, and the archive if there is one.
pub open spec fn saved_files(has_archive: bool) -> int {
    if has_archive {
        2
    } else {
        1
    }
}

/// What the file worker does for a command, given the versions of the lists: the state after
/// the command and the action (see `WorkerState::handle`).
pub open spec fn handled(s: WorkerState, command: FileWorkerCommands, version: (usize, usize), has_archive: bool) -> (WorkerState, WorkerAction) {
    match command {
        FileWorkerCommands::Save => if version == s.versions {
            (s, WorkerAction::Nothing)
        } else {
            (WorkerState { save_queue: (s.save_queue + saved_files(has_archive)) as usize, ..s }, WorkerAction::Save)
        },
        FileWorkerCommands::ForceSave => (
            WorkerState { save_queue: (s.save_queue + saved_files(has_archive)) as usize, ..s },
            WorkerAction::SaveAndRecord,
        ),
        FileWorkerCommands::Load => if s.save_queue == 0 {
            (s, WorkerAction::LoadAndRecord)
        } else {
            (WorkerState { save_queue: (s.save_queue - 1) as usize, ..s }, WorkerAction::Nothing)
        },
        FileWorkerCommands::Exit => (s, WorkerAction::Stop),
    }
}

/// The state after recording the versions of the lists.
pub open spec fn recorded(s: WorkerState, version: (usize, usize)) -> WorkerState {
    WorkerState { versions: version, ..s }
}

/// A forced save always writes, and once its versions are recorded, a save at those same
/// versions writes nothing, while a save after any change of the lists writes.
pub proof fn lemma_save_after_forced_save(s: WorkerState, v: (usize, usize), w: (usize, usize), has_archive: bool)
    requires
        s.save_queue + saved_files(has_archive) <= usize::MAX,
    ensures
        handled(s, FileWorkerCommands::ForceSave, v, has_archive).1 == WorkerAction::SaveAndRecord,
        handled(recorded(handled(s, FileWorkerCommands::ForceSave, v, has_archive).0, v), FileWorkerCommands::Save, v, has_archive).1
            == WorkerAction::Nothing,
        w != v ==> handled(recorded(handled(s, FileWorkerCommands::ForceSave, v, has_archive).0, v), FileWorkerCommands::Save, w, has_archive).1
            == WorkerAction::Save,
{
}

/// The change notifications of the worker's own save are not taken for outside changes: after
/// a save that writes `k` files, `k` notifications are absorbed, and only the next one loads the
/// files.
pub proof fn lemma_own_notifications_absorbed(s: WorkerState, v: (usize, usize), has_archive: bool)
    requires
        s.save_queue == 0,
        s.save_queue + saved_files(has_archive) <= usize::MAX,
    ensures
        ({
            let s1 = handled(s, FileWorkerCommands::ForceSave, v, has_archive).0;
            let (s2, a2) = handled(s1, FileWorkerCommands::Load, v, has_archive);
            if has_archive {
                let (s3, a3) = handled(s2, FileWorkerCommands::Load, v, has_archive);
                a2 == WorkerAction::Nothing && a3 == WorkerAction::Nothing && handled(s3, FileWorkerCommands::Load, v, has_archive).1
                    == WorkerAction::LoadAndRecord
            } else {
                a2 == WorkerAction::Nothing && handled(s2, FileWorkerCommands::Load, v, has_archive).1 == WorkerAction::LoadAndRecord
            }
        }),
{
}

impl WorkerState {
    pub fn new(versions: (usize, usize)) -> (s: WorkerState)
        ensures
            s.versions == versions,
            s.save_queue == 0,
    {
        WorkerState { versions, save_queue: 0 }
    }

    /// Decides what to do for a command, given the current versions of the lists: a save is
    /// skipped when nothing changed since the recorded versions; a forced save always
    /// happens; each save expects one change notification per written file, and a load
    /// notification is taken as one of those while any is expected, otherwise the files are
    /// loaded.
    pub fn handle(&mut self, command: FileWorkerCommands, version: &Version, has_archive: bool) -> (a: WorkerAction)
        requires
            command == FileWorkerCommands::Save || command == FileWorkerCommands::ForceSave ==> old(self).save_queue
                + saved_files(has_archive) <= usize::MAX,
        ensures
            (*final(self), a) == handled(*old(self), command, (version.pending, version.done), has_archive),
            final(self).versions == old(self).versions,
            match command {
                FileWorkerCommands::Save => if version.pending == old(self).versions.0 && version.done == old(self).versions.1 {
                    a == WorkerAction::Nothing && final(self).save_queue == old(self).save_queue
                } else {
                    a == WorkerAction::Save && final(self).save_queue == old(self).save_queue + saved_files(has_archive)
                },
                FileWorkerCommands::ForceSave => a == WorkerAction::SaveAndRecord && final(self).save_queue
                    == old(self).save_queue + saved_files(has_archive),
                FileWorkerCommands::Load => if old(self).save_queue == 0 {
                    a == WorkerAction::LoadAndRecord && final(self).save_queue == 0
                } else {
                    a == WorkerAction::Nothing && final(self).save_queue == old(self).save_queue - 1
                },
                FileWorkerCommands::Exit => a == WorkerAction::Stop && final(self).save_queue == old(self).save_queue,
            },
    {
        match command {
            FileWorkerCommands::Save => {
                if version.is_actual_all(self.versions) {
                    WorkerAction::Nothing
                } else {
                    self.save_queue = self.save_queue + 1;
                    if has_archive {
                        self.save_queue = self.save_queue + 1;
                    }
                    WorkerAction::Save
                }
            },
            FileWorkerCommands::ForceSave => {
                self.save_queue = self.save_queue + 1;
                if has_archive {
                    self.save_queue = self.save_queue + 1;
                }
                WorkerAction::SaveAndRecord
            },
            FileWorkerCommands::Load => {
                if self.save_queue == 0 {
                    WorkerAction::LoadAndRecord
                } else {
                    self.save_queue = self.save_queue - 1;
                    WorkerAction::Nothing
                }
            },
            FileWorkerCommands::Exit => WorkerAction::Stop,
        }
    }

    /// Records the versions of the lists after a save or load that asks for it.
    pub fn record(&mut self, version: &Version)
        ensures
            *final(self) == recorded(*old(self), (version.pending, version.done)),
            final(self).versions == (version.pending, version.done),
            final(self).save_queue == old(self).save_queue,
    {
        self.versions = version.get_version_all();
    }
}

/// Which helpers the worker starts: automatic saves (with a non-zero interval), change
/// notifications of the lists, and watchers of the todo file and of the archive.
#[derive(PartialEq, Eq, Structural, Debug, Copy, Clone)]
pub struct WorkerPlan {
    pub autosave: bool,
    pub notify_on_change: bool,
    pub watch_todo: bool,
    pub watch_archive: bool,
}

/// The helpers that the configuration asks for (see `WorkerPlan`).
pub fn worker_plan(config: &FileWorkerConfig) -> (p: WorkerPlan)
    ensures
        p.autosave == (config.save_policy == SavePolicy::AutoSave && config.autosave_duration != 0),
        p.notify_on_change == (config.save_policy == SavePolicy::OnChange),
        p.watch_todo == config.file_watcher,
        p.watch_archive == (config.file_watcher && config.archive_path is Some),
{
    WorkerPlan {
        autosave: config.save_policy == SavePolicy::AutoSave && config.autosave_duration != 0,
        notify_on_change: config.save_policy == SavePolicy::OnChange,
        watch_todo: config.file_watcher,
        watch_archive: config.file_watcher && config.archive_path.is_some(),
    }
}

/// What `shellexpand::env` gives, or an error message.
/// Trusted: calls `shellexpand::env`, which replaces `$NAME` and `${NAME}` by the values of
/// environment variables; a text without `$` comes back unchanged, as its source shows.
/// Which values come back depends on the environment, which is not stated.
#[verifier::external_body]
pub(crate) fn expand_env(path: &str) -> (r: Result<String, String>)
    ensures
        r is Ok || path@.contains('$'),
        r matches Ok(t) ==> (t@ == path@ || path@.contains('$')),
{
    match shellexpand::env(path) {
        Ok(s) => Ok(s.to_string()),
        Err(e) => Err(e.to_string()),
    }
}

/// The configuration with environment variables in its paths expanded (see `expand_env`),
/// or the first expansion error.
pub fn expand_paths(config: FileWorkerConfig) -> (r: Result<FileWorkerConfig, String>)
    ensures
        r matches Ok(c) ==> c.save_policy == config.save_policy && c.autosave_duration == config.autosave_duration
            && c.file_watcher == config.file_watcher && (c.archive_path is Some == config.archive_path is Some)
            && (!config.todo_path@.contains('$') ==> c.todo_path@ == config.todo_path@)
            && (config.archive_path matches Some(a) ==> (!a@.contains('$') ==> c.archive_path->0@ == a@)),
        r is Err ==> config.todo_path@.contains('$') || (config.archive_path matches Some(a) && a@.contains('$')),
{
    let todo_path = match expand_env(config.todo_path.as_str()) {
        Ok(p) => p,
        Err(e) => return Err(e),
    };
    let archive_path = match &config.archive_path {
        Some(a) => match expand_env(a.as_str()) {
            Ok(p) => Some(p),
            Err(e) => return Err(e),
        },
        None => None,
    };
    Ok(FileWorkerConfig {
        todo_path,
        archive_path,
        save_policy: config.save_policy,
        autosave_duration: config.autosave_duration,
        file_watcher: config.file_watcher,
    })
}

} // verus!
