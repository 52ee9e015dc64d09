//! Scanning category roots for disposable items.
//!
//! A scan is a walk of the file system that the library drives and the caller
//! performs: the session says which path to look at next, and the caller reports
//! what the file system says about it.
use vstd::prelude::*;

use crate::model::{CleanupCategory, ScanItem, ScanSummary, total_bytes};
use crate::path::{PathStyle, path_starts_with_in, starts_with_path_in};
use crate::planner::opt_string_view;
use crate::safety::{is_protected_broad_root_in, spec_is_protected_broad_root_in};

verus! {

#[verifier::external_type_specification]
#[verifier::external_body]
pub struct ExIoError(std::io::Error);

/// What a scan covers: a category, the roots to walk, and roots not to enter.
#[derive(Debug, Clone)]
pub struct ScanRequest {
    pub category: CleanupCategory,
    pub roots: Vec<String>,
    pub excluded_roots: Vec<String>,
}

/// Whether the root at `i`, resolved to `resolved`, is a protected broad root of
/// a platform with the path conventions of `style`.
pub open spec fn protected_scan_root(
    style: PathStyle,
    roots: Seq<String>,
    resolved: Seq<Option<String>>,
    i: int,
) -> bool {
    spec_is_protected_broad_root_in(style, roots[i]@, opt_string_view(resolved[i]))
}

impl ScanRequest {
    /// Refuses a request that would walk a protected broad root of a Unix system
    /// (`validate_for` with Unix paths).
    pub fn validate(&self, resolved_roots: &Vec<Option<String>>) -> (r: Result<(), String>)
        requires
            resolved_roots@.len() == self.roots@.len(),
        ensures
            r == self.spec_validate_for(PathStyle::Unix, resolved_roots@),
    {
        self.validate_for(PathStyle::Unix, resolved_roots)
    }

    /// The outcome of `validate_for`: the first root, in order, that is a protected
    /// broad root, or success.
    pub open spec fn spec_validate_for(&self, style: PathStyle, resolved: Seq<Option<String>>) -> Result<
        (),
        String,
    > {
        let first = first_protected_root(style, self.roots@, resolved, 0);
        if first < self.roots@.len() {
            Err(self.roots@[first])
        } else {
            Ok(())
        }
    }

    /// Refuses a request that would walk a protected broad root of the platform
    /// whose path conventions are `style` (the Unix list, or the Windows volume
    /// roots and their protected top-level directories), naming the first such
    /// root. `resolved_roots` holds what each root resolves to
    /// (`fs::canonicalize`), or `None` where it does not resolve.
    pub fn validate_for(&self, style: PathStyle, resolved_roots: &Vec<Option<String>>) -> (r: Result<
        (),
        String,
    >)
        requires
            resolved_roots@.len() == self.roots@.len(),
        ensures
            r == self.spec_validate_for(style, resolved_roots@),
            match r {
                Ok(()) => forall|i: int|
                    0 <= i < self.roots@.len() ==> !protected_scan_root(
                        style,
                        self.roots@,
                        resolved_roots@,
                        i,
                    ),
                Err(root) => exists|i: int|
                    0 <= i < self.roots@.len() && protected_scan_root(
                        style,
                        self.roots@,
                        resolved_roots@,
                        i,
                    ) && root@ == self.roots@[i]@ && forall|j: int|
                        0 <= j < i ==> !protected_scan_root(style, self.roots@, resolved_roots@, j),
            },
    {
        let mut i: usize = 0;
        while i < self.roots.len()
            invariant
                i <= self.roots@.len(),
                resolved_roots@.len() == self.roots@.len(),
                forall|j: int|
                    0 <= j < i ==> !protected_scan_root(style, self.roots@, resolved_roots@, j),
                first_protected_root(style, self.roots@, resolved_roots@, 0) == first_protected_root(
                    style,
                    self.roots@,
                    resolved_roots@,
                    i as int,
                ),
            decreases self.roots@.len() - i,
        {
            let resolved = match &resolved_roots[i] {
                Some(r) => Some(r.as_str()),
                None => None,
            };
            if is_protected_broad_root_in(style, self.roots[i].as_str(), resolved) {
                assert(protected_scan_root(style, self.roots@, resolved_roots@, i as int));
                return Err(self.roots[i].clone());
            }
            i = i + 1;
        }
        Ok(())
    }
}

/// The index of the first root at or after `from` that is a protected broad root,
/// or the number of roots.
pub open spec fn first_protected_root(
    style: PathStyle,
    roots: Seq<String>,
    resolved: Seq<Option<String>>,
    from: int,
) -> int
    decreases roots.len() - from,
{
    if from < 0 || from >= roots.len() {
        roots.len() as int
    } else if protected_scan_root(style, roots, resolved, from) {
        from
    } else {
        first_protected_root(style, roots, resolved, from + 1)
    }
}

/// Whether `path` lies under (or is) one of the excluded roots, paths read by the
/// conventions of `style`.
pub open spec fn spec_is_excluded(style: PathStyle, path: Seq<char>, excluded_roots: Seq<String>) -> bool {
    exists|i: int|
        0 <= i < excluded_roots.len() && path_starts_with_in(style, path, #[trigger] excluded_roots[i]@)
}

/// Whether the Unix path `path` lies under (or is) one of the excluded roots.
pub fn is_excluded(path: &str, excluded_roots: &[String]) -> (r: bool)
    ensures
        r == spec_is_excluded(PathStyle::Unix, path@, excluded_roots@),
{
    is_excluded_in(PathStyle::Unix, path, excluded_roots)
}

/// Whether `path` lies under (or is) one of the excluded roots, paths read by the
/// conventions of `style`.
pub fn is_excluded_in(style: PathStyle, path: &str, excluded_roots: &[String]) -> (r: bool)
    ensures
        r == spec_is_excluded(style, path@, excluded_roots@),
{
    let mut i: usize = 0;
    while i < excluded_roots.len()
        invariant
            i <= excluded_roots@.len(),
            forall|j: int|
                0 <= j < i ==> !path_starts_with_in(style, path@, #[trigger] excluded_roots@[j]@),
        decreases excluded_roots@.len() - i,
    {
        if starts_with_path_in(style, path, excluded_roots[i].as_str()) {
            return true;
        }
        i = i + 1;
    }
    false
}

/// What a scan reports as it goes.
#[derive(Debug, Clone, PartialEq, Eq)]
pub enum ScanEvent {
    Started { category: CleanupCategory, root_count: usize },
    ItemFound { item: ScanItem },
    PermissionDenied { path: String },
    Finished { summary: ScanSummary },
    Cancelled { summary: ScanSummary },
}

/// How an I/O error is handled by a scan: a missing path is skipped, a denied one
/// is reported and skipped, and anything else ends the scan.
#[derive(Debug, Clone, Copy, PartialEq, Eq, Structural)]
pub enum IoErrorClass {
    NotFound,
    PermissionDenied,
    Other,
}

/// The class of an I/O error, by its kind.
#[verifier::external_body]
fn io_error_class(error: &std::io::Error) -> (c: IoErrorClass) {
    match error.kind() {
        std::io::ErrorKind::NotFound => IoErrorClass::NotFound,
        std::io::ErrorKind::PermissionDenied => IoErrorClass::PermissionDenied,
        _ => IoErrorClass::Other,
    }
}

/// Whether `event` reports that `path` could not be read for lack of permission.
pub open spec fn is_denied_event(event: ScanEvent, path: Seq<char>) -> bool {
    event matches ScanEvent::PermissionDenied { path: p } && p@ == path
}

/// Handles an I/O error of class `class` met at `path`: a missing path is skipped,
/// a denied one is reported to `sink` and skipped, and anything else is not
/// handled (`false`).
pub fn handle_error_class(path: &str, class: IoErrorClass, sink: &mut Vec<ScanEvent>) -> (handled: bool)
    ensures
        handled == (class != IoErrorClass::Other),
        class == IoErrorClass::PermissionDenied ==> final(sink)@.len() == old(sink)@.len() + 1
            && final(sink)@.drop_last() == old(sink)@ && is_denied_event(final(sink)@.last(), path@),
        class != IoErrorClass::PermissionDenied ==> final(sink)@ == old(sink)@,
{
    match class {
        IoErrorClass::NotFound => true,
        IoErrorClass::PermissionDenied => {
            let ghost before = sink@;
            sink.push(ScanEvent::PermissionDenied { path: path.to_owned() });
            assert(sink@.drop_last() =~= before);
            true
        },
        IoErrorClass::Other => false,
    }
}

/// Handles an I/O error met at `path`, by its kind: a missing path is skipped
/// (`Ok(true)`), a denied one is reported to `sink` and skipped (`Ok(true)`), and
/// anything else is handed back. Which of these happens depends on the error's
/// kind, which this library cannot see.
pub fn handle_optional_path_error(
    path: &str,
    error: std::io::Error,
    sink: &mut Vec<ScanEvent>,
) -> (r: Result<bool, std::io::Error>)
    ensures
        match r {
            Ok(handled) => handled && (final(sink)@ == old(sink)@ || (final(sink)@.len()
                == old(sink)@.len() + 1 && final(sink)@.drop_last() == old(sink)@
                && is_denied_event(final(sink)@.last(), path@))),
            Err(_) => final(sink)@ == old(sink)@,
        },
{
    let class = io_error_class(&error);
    if handle_error_class(path, class, sink) {
        Ok(true)
    } else {
        Err(error)
    }
}

/// What the file system reported for a path that a scan visits.
#[derive(Debug, Clone, PartialEq, Eq)]
pub enum PathVisit {
    /// Its metadata could not be read (`fs::symlink_metadata`).
    Unreadable(IoErrorClass),
    Symlink,
    File(u64),
    /// A directory that could not be listed (`fs::read_dir`).
    UnlistableDirectory(IoErrorClass),
    /// A directory, with what reading each of its entries gave, in listing order:
    /// the entry's path, or the class of the error met.
    Directory(Vec<Result<String, IoErrorClass>>),
    /// Anything else (a device, a socket, a fifo).
    Other,
}

/// What is left to do in a scan.
pub enum WorkModel {
    /// A path to look at.
    Visit(Seq<char>),
    /// An error met while listing a directory.
    EntryError(Seq<char>, IoErrorClass),
}

enum ScanWork {
    Visit(String),
    EntryError(String, IoErrorClass),
}

impl View for ScanWork {
    type V = WorkModel;

    closed spec fn view(&self) -> WorkModel {
        match self {
            ScanWork::Visit(p) => WorkModel::Visit(p@),
            ScanWork::EntryError(d, c) => WorkModel::EntryError(d@, *c),
        }
    }
}

/// The models of a list of pending work.
pub open spec fn work_views(w: Seq<ScanWork>) -> Seq<WorkModel> {
    w.map_values(|x: ScanWork| x@)
}

/// Where a scan stands.
#[derive(Debug, Clone, Copy, PartialEq, Eq, Structural)]
pub enum ScanPhase {
    Running,
    Finished,
    Cancelled,
    Failed,
}

/// What the caller should do after a step.
#[derive(Debug, Clone, PartialEq, Eq)]
pub enum ScanStep {
    /// Look at this path and report it with `visit`.
    Observe(String),
    /// Step again.
    Continue,
    /// The scan has ended (see its phase).
    Done,
}

/// The items carried by the item events, in order.
pub open spec fn item_events(events: Seq<ScanEvent>) -> Seq<ScanItem>
    decreases events.len(),
{
    if events.len() == 0 {
        Seq::empty()
    } else {
        match events.last() {
            ScanEvent::ItemFound { item } => item_events(events.drop_last()).push(item),
            _ => item_events(events.drop_last()),
        }
    }
}

/// The summary of a list of items whose sizes add up within `u64`.
pub open spec fn summary_of(items: Seq<ScanItem>) -> ScanSummary {
    ScanSummary { item_count: items.len() as usize, total_bytes: total_bytes(items) as u64 }
}

/// The work for the roots of a request: the first root on top.
pub open spec fn root_work(roots: Seq<String>) -> Seq<WorkModel> {
    Seq::new(roots.len(), |i: int| WorkModel::Visit(roots[roots.len() - 1 - i]@))
}

/// The work for one entry of a listing of `dir`.
pub open spec fn entry_work(dir: Seq<char>, entry: Result<String, IoErrorClass>) -> WorkModel {
    match entry {
        Ok(p) => WorkModel::Visit(p@),
        Err(c) => WorkModel::EntryError(dir, c),
    }
}

/// The work for a listing of `dir`: its first entry on top.
pub open spec fn listing_work(dir: Seq<char>, entries: Seq<Result<String, IoErrorClass>>) -> Seq<
    WorkModel,
> {
    Seq::new(entries.len(), |i: int| entry_work(dir, entries[entries.len() - 1 - i]))
}

/// Walks category roots. The walk never enters an excluded root, never follows a
/// symlink, reports what it cannot read for lack of permission, and skips what
/// has vanished.
#[derive(Debug, Default)]
pub struct FileSystemScanner;

/// One scan in progress.
pub struct ScanSession {
    style: PathStyle,
    request: ScanRequest,
    work: Vec<ScanWork>,
    current: Option<String>,
    items: Vec<ScanItem>,
    events: Vec<ScanEvent>,
    phase: ScanPhase,
}

impl ScanSession {
    /// The request being scanned.
    pub closed spec fn request(&self) -> ScanRequest {
        self.request
    }

    /// The path conventions the scan reads paths by.
    pub closed spec fn path_style(&self) -> PathStyle {
        self.style
    }

    /// What is left to do; the next thing to do is last.
    pub closed spec fn work(&self) -> Seq<WorkModel> {
        work_views(self.work@)
    }

    /// The path handed out and not yet reported, if any.
    pub closed spec fn current(&self) -> Option<Seq<char>> {
        opt_string_view(self.current)
    }

    /// The items found so far, in the order they were found.
    pub closed spec fn spec_items(&self) -> Seq<ScanItem> {
        self.items@
    }

    /// The events so far.
    pub closed spec fn spec_events(&self) -> Seq<ScanEvent> {
        self.events@
    }

    /// Where the scan stands.
    pub closed spec fn spec_phase(&self) -> ScanPhase {
        self.phase
    }

    /// The scan's invariant: every item has the request's category and lies outside
    /// the excluded roots; the item events carry exactly the items; the events
    /// start with the start event; a scan that ended says so in its last event,
    /// with the summary of its items.
    pub open spec fn wf(&self) -> bool {
        let request = self.request();
        let items = self.spec_items();
        let events = self.spec_events();
        &&& forall|i: int| 0 <= i < items.len() ==> (#[trigger] items[i]).category == request.category
        &&& forall|i: int|
            0 <= i < items.len() ==> !spec_is_excluded(
                self.path_style(),
                (#[trigger] items[i]).path@,
                request.excluded_roots@,
            )
        &&& item_events(events) == items
        &&& total_bytes(items) <= u64::MAX
        &&& events.len() >= 1
        &&& events[0] == ScanEvent::Started {
            category: request.category,
            root_count: request.roots@.len() as usize,
        }
        &&& self.current() is Some ==> self.spec_phase() == ScanPhase::Running && !spec_is_excluded(
            self.path_style(),
            self.current()->0,
            request.excluded_roots@,
        )
        &&& self.spec_phase() == ScanPhase::Finished ==> self.work().len() == 0 && events.last()
            == ScanEvent::Finished { summary: summary_of(items) }
        &&& self.spec_phase() == ScanPhase::Cancelled ==> events.last() == ScanEvent::Cancelled {
            summary: summary_of(items),
        }
    }

    /// The items found so far.
    pub fn items(&self) -> (r: &[ScanItem])
        ensures
            r@ == self.spec_items(),
    {
        self.items.as_slice()
    }

    /// The events so far.
    pub fn events(&self) -> (r: &[ScanEvent])
        ensures
            r@ == self.spec_events(),
    {
        self.events.as_slice()
    }

    /// Where the scan stands.
    pub fn phase(&self) -> (r: ScanPhase)
        ensures
            r == self.spec_phase(),
    {
        self.phase
    }

    /// The items found.
    pub fn into_items(self) -> (r: Vec<ScanItem>)
        ensures
            r@ == self.spec_items(),
    {
        self.items
    }

    fn summary(&self) -> (s: ScanSummary)
        requires
            self.wf(),
        ensures
            s == summary_of(self.spec_items()),
    {
        ScanSummary::from_items(self.items.as_slice())
    }

    proof fn lemma_item_events_push(events: Seq<ScanEvent>, e: ScanEvent)
        ensures
            item_events(events.push(e)) == match e {
                ScanEvent::ItemFound { item } => item_events(events).push(item),
                _ => item_events(events),
            },
    {
        assert(events.push(e).drop_last() =~= events);
    }

    /// Takes one step: stops if cancellation was requested (`cancelled`); finishes
    /// when nothing is left; otherwise takes the next piece of work. A path under an
    /// excluded root is skipped; any other path is handed out to be looked at. An
    /// error met while listing a directory is handled by its class.
    pub fn step(&mut self, cancelled: bool) -> (r: ScanStep)
        requires
            old(self).wf(),
            old(self).current() is None,
            old(self).spec_phase() == ScanPhase::Running,
        ensures
            final(self).wf(),
            final(self).request() == old(self).request(),
            final(self).path_style() == old(self).path_style(),
            final(self).spec_items() == old(self).spec_items(),
            ({
                let work = old(self).work();
                let events = old(self).spec_events();
                let summary = summary_of(old(self).spec_items());
                if cancelled {
                    &&& r == ScanStep::Done
                    &&& final(self).spec_phase() == ScanPhase::Cancelled
                    &&& final(self).spec_events() == events.push(ScanEvent::Cancelled { summary })
                    &&& final(self).work() == work
                    &&& final(self).current() is None
                } else if work.len() == 0 {
                    &&& r == ScanStep::Done
                    &&& final(self).spec_phase() == ScanPhase::Finished
                    &&& final(self).spec_events() == events.push(ScanEvent::Finished { summary })
                    &&& final(self).current() is None
                } else {
                    &&& final(self).work() == work.drop_last()
                    &&& match work.last() {
                        WorkModel::Visit(p) => if spec_is_excluded(
                            old(self).path_style(),
                            p,
                            old(self).request().excluded_roots@,
                        ) {
                            &&& r == ScanStep::Continue
                            &&& final(self).current() is None
                            &&& final(self).spec_phase() == ScanPhase::Running
                            &&& final(self).spec_events() == events
                        } else {
                            &&& r matches ScanStep::Observe(q) && q@ == p
                            &&& final(self).current() == Some(p)
                            &&& final(self).spec_phase() == ScanPhase::Running
                            &&& final(self).spec_events() == events
                        },
                        WorkModel::EntryError(dir, class) => {
                            &&& final(self).current() is None
                            &&& class == IoErrorClass::Other ==> r == ScanStep::Done
                                && final(self).spec_phase() == ScanPhase::Failed
                                && final(self).spec_events() == events
                            &&& class == IoErrorClass::NotFound ==> r == ScanStep::Continue
                                && final(self).spec_phase() == ScanPhase::Running
                                && final(self).spec_events() == events
                            &&& class == IoErrorClass::PermissionDenied ==> r == ScanStep::Continue
                                && final(self).spec_phase() == ScanPhase::Running
                                && final(self).spec_events().len() == events.len() + 1
                                && final(self).spec_events().drop_last() == events
                                && is_denied_event(final(self).spec_events().last(), dir)
                        },
                    }
                }
            }),
    {
        if cancelled {
            let summary = self.summary();
            let ghost before = self.events@;
            self.events.push(ScanEvent::Cancelled { summary });
            proof {
                Self::lemma_item_events_push(before, ScanEvent::Cancelled { summary });
            }
            self.phase = ScanPhase::Cancelled;
            return ScanStep::Done;
        }
        let ghost old_work = self.work@;
        match self.work.pop() {
            None => {
                let summary = self.summary();
                let ghost before = self.events@;
                self.events.push(ScanEvent::Finished { summary });
                proof {
                    Self::lemma_item_events_push(before, ScanEvent::Finished { summary });
                }
                self.phase = ScanPhase::Finished;
                ScanStep::Done
            },
            Some(work) => {
                assert(work_views(self.work@) =~= work_views(old_work).drop_last());
                match work {
                    ScanWork::Visit(path) => {
                        if is_excluded_in(
                            self.style,
                            path.as_str(),
                            self.request.excluded_roots.as_slice(),
                        ) {
                            ScanStep::Continue
                        } else {
                            let out = path.clone();
                            self.current = Some(path);
                            ScanStep::Observe(out)
                        }
                    },
                    ScanWork::EntryError(dir, class) => {
                        let ghost before = self.events@;
                        let handled = handle_error_class(dir.as_str(), class, &mut self.events);
                        proof {
                            if class == IoErrorClass::PermissionDenied {
                                Self::lemma_item_events_push(before, self.events@.last());
                                assert(before.push(self.events@.last()) =~= self.events@);
                            }
                        }
                        if handled {
                            ScanStep::Continue
                        } else {
                            self.phase = ScanPhase::Failed;
                            ScanStep::Done
                        }
                    },
                }
            },
        }
    }

    /// Reports what the file system said about the path handed out. An unreadable
    /// path is handled by the class of its error; a symlink or a file is an item
    /// (a symlink with no size, and never followed); a directory's entries become
    /// the next work, in listing order.
    pub fn visit(&mut self, visit: PathVisit)
        requires
            old(self).wf(),
            old(self).current() is Some,
            visit matches PathVisit::File(b) ==> total_bytes(old(self).spec_items()) + b
                <= u64::MAX,
        ensures
            final(self).wf(),
            final(self).request() == old(self).request(),
            final(self).path_style() == old(self).path_style(),
            final(self).current() is None,
            ({
                let path = old(self).current()->0;
                let request = old(self).request();
                let work = old(self).work();
                let items = old(self).spec_items();
                let events = old(self).spec_events();
                match visit {
                    PathVisit::Unreadable(class) | PathVisit::UnlistableDirectory(class) => {
                        &&& final(self).work() == work
                        &&& final(self).spec_items() == items
                        &&& class == IoErrorClass::Other ==> final(self).spec_phase()
                            == ScanPhase::Failed && final(self).spec_events() == events
                        &&& class == IoErrorClass::NotFound ==> final(self).spec_phase()
                            == ScanPhase::Running && final(self).spec_events() == events
                        &&& class == IoErrorClass::PermissionDenied ==> final(self).spec_phase()
                            == ScanPhase::Running && final(self).spec_events().len() == events.len()
                            + 1 && final(self).spec_events().drop_last() == events
                            && is_denied_event(final(self).spec_events().last(), path)
                    },
                    PathVisit::Symlink => {
                        let item = final(self).spec_items().last();
                        &&& final(self).work() == work
                        &&& final(self).spec_phase() == ScanPhase::Running
                        &&& final(self).spec_items() == items.push(item)
                        &&& item.path@ == path && item.category == request.category
                        &&& item.bytes == 0 && item.is_symlink
                        &&& final(self).spec_events() == events.push(ScanEvent::ItemFound { item })
                    },
                    PathVisit::File(bytes) => {
                        let item = final(self).spec_items().last();
                        &&& final(self).work() == work
                        &&& final(self).spec_phase() == ScanPhase::Running
                        &&& final(self).spec_items() == items.push(item)
                        &&& item.path@ == path && item.category == request.category
                        &&& item.bytes == bytes && !item.is_symlink
                        &&& final(self).spec_events() == events.push(ScanEvent::ItemFound { item })
                    },
                    PathVisit::Directory(entries) => {
                        &&& final(self).work() == work + listing_work(path, entries@)
                        &&& final(self).spec_phase() == ScanPhase::Running
                        &&& final(self).spec_items() == items
                        &&& final(self).spec_events() == events
                    },
                    PathVisit::Other => {
                        &&& final(self).work() == work
                        &&& final(self).spec_phase() == ScanPhase::Running
                        &&& final(self).spec_items() == items
                        &&& final(self).spec_events() == events
                    },
                }
            }),
    {
        let path = match self.current.take() {
            Some(p) => p,
            None => {
                return;
            },
        };
        match visit {
            PathVisit::Unreadable(class) | PathVisit::UnlistableDirectory(class) => {
                let ghost before = self.events@;
                let handled = handle_error_class(path.as_str(), class, &mut self.events);
                proof {
                    if class == IoErrorClass::PermissionDenied {
                        Self::lemma_item_events_push(before, self.events@.last());
                        assert(before.push(self.events@.last()) =~= self.events@);
                    }
                }
                if !handled {
                    self.phase = ScanPhase::Failed;
                }
            },
            PathVisit::Symlink => {
                let item = ScanItem { path, category: self.request.category, bytes: 0, is_symlink: true };
                self.push_item(item);
            },
            PathVisit::File(bytes) => {
                let item = ScanItem { path, category: self.request.category, bytes, is_symlink: false };
                self.push_item(item);
            },
            PathVisit::Directory(entries) => {
                let ghost listing = entries@;
                let ghost old_work = work_views(self.work@);
                let n = entries.len();
                let mut rest = entries;
                while rest.len() > 0
                    invariant
                        self.style == old(self).style,
                        self.request == old(self).request,
                        self.items == old(self).items,
                        self.events == old(self).events,
                        self.phase == old(self).phase,
                        self.current is None,
                        n == listing.len(),
                        rest@ == listing.take(rest@.len() as int),
                        rest@.len() <= n,
                        work_views(self.work@) == old_work + Seq::new(
                            (n - rest@.len()) as nat,
                            |i: int| entry_work(path@, listing[n - 1 - i]),
                        ),
                    decreases rest@.len(),
                {
                    let ghost m = rest@.len();
                    let entry = rest.pop().unwrap();
                    assert(entry == listing[m - 1]);
                    assert(rest@ =~= listing.take(m - 1));
                    let ghost before = work_views(self.work@);
                    match entry {
                        Ok(child) => self.work.push(ScanWork::Visit(child)),
                        Err(class) => self.work.push(ScanWork::EntryError(path.clone(), class)),
                    }
                    assert(work_views(self.work@) =~= before.push(entry_work(path@, listing[m - 1])));
                    assert(old_work + Seq::new(
                        (n - rest@.len()) as nat,
                        |i: int| entry_work(path@, listing[n - 1 - i]),
                    ) =~= before.push(entry_work(path@, listing[m - 1])));
                }
                assert(Seq::new(n as nat, |i: int| entry_work(path@, listing[n - 1 - i]))
                    =~= listing_work(path@, listing));
            },
            PathVisit::Other => {},
        }
    }

    fn push_item(&mut self, item: ScanItem)
        requires
            old(self).wf(),
            old(self).current() is None,
            old(self).spec_phase() == ScanPhase::Running,
            item.category == old(self).request().category,
            !spec_is_excluded(old(self).path_style(), item.path@, old(self).request().excluded_roots@),
            total_bytes(old(self).spec_items()) + item.bytes <= u64::MAX,
        ensures
            final(self).wf(),
            final(self).request() == old(self).request(),
            final(self).path_style() == old(self).path_style(),
            final(self).current() is None,
            final(self).work() == old(self).work(),
            final(self).spec_phase() == ScanPhase::Running,
            final(self).spec_items() == old(self).spec_items().push(item),
            final(self).spec_events() == old(self).spec_events().push(ScanEvent::ItemFound { item }),
    {
        let ghost before = self.events@;
        let ghost before_items = self.items@;
        self.events.push(ScanEvent::ItemFound { item: item.duplicate() });
        self.items.push(item);
        proof {
            Self::lemma_item_events_push(before, ScanEvent::ItemFound { item });
            assert(self.items@.drop_last() =~= before_items);
        }
    }
}

impl FileSystemScanner {
    /// Starts scanning `request` on a Unix system (`start_for` with Unix paths).
    pub fn start(&self, request: ScanRequest, resolved_roots: &Vec<Option<String>>) -> (r: Result<
        ScanSession,
        String,
    >)
        requires
            resolved_roots@.len() == request.roots@.len(),
        ensures
            Self::starts(PathStyle::Unix, request, resolved_roots@, r),
    {
        self.start_for(PathStyle::Unix, request, resolved_roots)
    }

    /// What `start_for` gives: refused with the first protected root, or a scan that
    /// has reported its start and walks the roots in order.
    pub open spec fn starts(
        style: PathStyle,
        request: ScanRequest,
        resolved_roots: Seq<Option<String>>,
        r: Result<ScanSession, String>,
    ) -> bool {
        match r {
            Err(root) => request.spec_validate_for(style, resolved_roots) == Err::<(), String>(root),
            Ok(session) => {
                &&& request.spec_validate_for(style, resolved_roots) is Ok
                &&& session.wf()
                &&& session.request() == request
                &&& session.path_style() == style
                &&& session.work() == root_work(request.roots@)
                &&& session.current() is None
                &&& session.spec_phase() == ScanPhase::Running
                &&& session.spec_items().len() == 0
                &&& session.spec_events() == seq![
                    ScanEvent::Started {
                        category: request.category,
                        root_count: request.roots@.len() as usize,
                    },
                ]
            },
        }
    }

    /// Starts scanning `request` on a platform whose path conventions are `style`.
    /// Refused, naming the root, when a root is a protected broad root of that
    /// platform (see `ScanRequest::validate_for`). Otherwise the scan has reported
    /// its start, and walks the roots in order, reading paths by `style`.
    pub fn start_for(
        &self,
        style: PathStyle,
        request: ScanRequest,
        resolved_roots: &Vec<Option<String>>,
    ) -> (r: Result<ScanSession, String>)
        requires
            resolved_roots@.len() == request.roots@.len(),
        ensures
            Self::starts(style, request, resolved_roots@, r),
            match r {
                Err(root) => exists|i: int|
                    0 <= i < request.roots@.len() && protected_scan_root(
                        style,
                        request.roots@,
                        resolved_roots@,
                        i,
                    ) && root@ == request.roots@[i]@,
                Ok(session) => forall|i: int|
                    0 <= i < request.roots@.len() ==> !protected_scan_root(
                        style,
                        request.roots@,
                        resolved_roots@,
                        i,
                    ),
            },
    {
        match request.validate_for(style, resolved_roots) {
            Err(root) => {
                return Err(root);
            },
            Ok(()) => {},
        }
        let mut events: Vec<ScanEvent> = Vec::new();
        events.push(
            ScanEvent::Started { category: request.category, root_count: request.roots.len() },
        );
        let mut work: Vec<ScanWork> = Vec::new();
        let n = request.roots.len();
        let mut k: usize = n;
        while k > 0
            invariant
                k <= n,
                n == request.roots@.len(),
                work_views(work@) == Seq::new(
                    (n - k) as nat,
                    |i: int| WorkModel::Visit(request.roots@[n - 1 - i]@),
                ),
            decreases k,
        {
            k = k - 1;
            let ghost before = work_views(work@);
            work.push(ScanWork::Visit(request.roots[k].clone()));
            assert(work_views(work@) =~= before.push(WorkModel::Visit(request.roots@[k as int]@)));
            assert(Seq::new((n - k) as nat, |i: int| WorkModel::Visit(request.roots@[n - 1 - i]@))
                =~= before.push(WorkModel::Visit(request.roots@[k as int]@)));
        }
        let items: Vec<ScanItem> = Vec::new();
        let session = ScanSession {
            style,
            request,
            work,
            current: None,
            items,
            events,
            phase: ScanPhase::Running,
        };
        proof {
            assert(session.work() =~= root_work(session.request.roots@));
            assert(session.events@.drop_last() =~= Seq::<ScanEvent>::empty());
            assert(item_events(Seq::<ScanEvent>::empty()) =~= Seq::<ScanItem>::empty());
            assert(item_events(session.events@) =~= Seq::<ScanItem>::empty());
            assert(session.events@ =~= seq![
                ScanEvent::Started {
                    category: session.request.category,
                    root_count: session.request.roots@.len() as usize,
                },
            ]);
        }
        Ok(session)
    }
}

} // verus!
