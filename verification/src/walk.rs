//! The directory walk: from what one directory holds to the work it calls for.
//! The walk itself reads no file system; it is handed a listing and answers
//! with the conversions to run and the subdirectories to walk next.

use crate::error::{ConvertError, ConvertErrorView, FileOperation};
use crate::extension::{format_from_hint, format_of, SourceFormat};
use crate::naming::{extension, extension_of, join_path, joined, renamed, supported_name};
use crate::options::{quality_of, quality_or_default};
use crate::plan::{
    lemma_rewritten_target_is_new, lemma_written_names_unsupported, plan_write, write_plan,
    WritePlan, WritePlanView,
};
use vstd::multiset::Multiset;
use vstd::prelude::*;

verus! {

/// What a directory entry is, as far as the walk cares.
#[derive(Clone, Copy, Debug, PartialEq, Eq, Structural)]
pub enum EntryKind {
    File,
    Directory,
    Other,
}

/// One entry of a directory: its name within the directory and its kind.
#[derive(Clone, Debug, PartialEq, Eq)]
pub struct DirEntry {
    pub name: String,
    pub kind: EntryKind,
}

/// A `DirEntry` with its name as a sequence of characters.
pub struct DirEntryView {
    pub name: Seq<char>,
    pub kind: EntryKind,
}

impl View for DirEntry {
    type V = DirEntryView;

    open spec fn view(&self) -> DirEntryView {
        DirEntryView { name: self.name@, kind: self.kind }
    }
}

/// What was found at an input path.
#[derive(Clone, Debug, PartialEq, Eq)]
pub enum Listing {
    /// Nothing is there, or what is there is no directory.
    Absent,
    /// A directory that could not be read; the cause the file system gave.
    Unreadable(String),
    /// A directory with these entries.
    Entries(Vec<DirEntry>),
}

/// A `Listing` with its names as sequences of characters.
pub enum ListingView {
    Absent,
    Unreadable(Seq<char>),
    Entries(Seq<DirEntryView>),
}

impl View for Listing {
    type V = ListingView;

    open spec fn view(&self) -> ListingView {
        match self {
            Listing::Absent => ListingView::Absent,
            Listing::Unreadable(cause) => ListingView::Unreadable(cause@),
            Listing::Entries(entries) => ListingView::Entries(
                entries@.map_values(|e: DirEntry| e@),
            ),
        }
    }
}

/// What reading one entry of a directory gave, by its view: the entry, or the
/// cause the file system gave for not reading it.
pub open spec fn read_view(read: Result<DirEntry, String>) -> Result<DirEntryView, Seq<char>> {
    match read {
        Ok(entry) => Ok(entry@),
        Err(cause) => Err(cause@),
    }
}

/// The cause of the first entry that failed to read, if one did.
pub open spec fn first_failure(read: Seq<Result<DirEntryView, Seq<char>>>) -> Option<Seq<char>>
    decreases read.len(),
{
    if read.len() == 0 {
        None
    } else {
        match first_failure(read.drop_last()) {
            Some(cause) => Some(cause),
            None => match read.last() {
                Ok(_) => None,
                Err(cause) => Some(cause),
            },
        }
    }
}

/// The listing of a directory whose entries were read one by one: the
/// entries, in the order read, if every one of them was read; unreadable,
/// with the cause of the first failure, if any was not.
pub open spec fn listing_of(read: Seq<Result<DirEntryView, Seq<char>>>) -> ListingView {
    match first_failure(read) {
        Some(cause) => ListingView::Unreadable(cause),
        None => ListingView::Entries(
            read.map_values(|r: Result<DirEntryView, Seq<char>>| r->Ok_0),
        ),
    }
}

/// A failure among the first entries is the first failure of them all.
pub proof fn lemma_first_failure_stands(read: Seq<Result<DirEntryView, Seq<char>>>, k: int)
    requires
        0 <= k <= read.len(),
        first_failure(read.take(k)) is Some,
    ensures
        first_failure(read) == first_failure(read.take(k)),
    decreases read.len() - k,
{
    if k < read.len() {
        assert(read.take(k + 1).drop_last() =~= read.take(k));
        lemma_first_failure_stands(read, k + 1);
    } else {
        assert(read.take(k) =~= read);
    }
}

/// One directory to walk and how to convert what it holds.
#[derive(Clone, Debug, PartialEq, Eq)]
pub struct WalkRequest {
    pub input_dir: String,
    pub output_dir: Option<String>,
    pub keep_original_ext: bool,
    pub quality: u8,
}

/// A `WalkRequest` with its paths as sequences of characters.
pub struct WalkRequestView {
    pub input_dir: Seq<char>,
    pub output_dir: Option<Seq<char>>,
    pub keep_original_ext: bool,
    pub quality: u8,
}

impl View for WalkRequest {
    type V = WalkRequestView;

    open spec fn view(&self) -> WalkRequestView {
        WalkRequestView {
            input_dir: self.input_dir@,
            output_dir: match self.output_dir {
                Some(dir) => Some(dir@),
                None => None,
            },
            keep_original_ext: self.keep_original_ext,
            quality: self.quality,
        }
    }
}

/// One unit of work that a directory calls for.
#[derive(Clone, Debug, PartialEq, Eq)]
pub enum Task {
    /// Convert one file as planned, decoding it as `format`.
    Convert { plan: WritePlan, format: SourceFormat, quality: u8 },
    /// Walk a subdirectory.
    Descend(WalkRequest),
}

/// A `Task` with its paths as sequences of characters.
pub enum TaskView {
    Convert { plan: WritePlanView, format: SourceFormat, quality: u8 },
    Descend(WalkRequestView),
}

impl View for Task {
    type V = TaskView;

    open spec fn view(&self) -> TaskView {
        match self {
            Task::Convert { plan, format, quality } => TaskView::Convert {
                plan: plan@,
                format: *format,
                quality: *quality,
            },
            Task::Descend(request) => TaskView::Descend(request@),
        }
    }
}

/// The tasks of a list, each by its view.
pub open spec fn task_views(tasks: Seq<Task>) -> Seq<TaskView> {
    tasks.map_values(|t: Task| t@)
}

/// The request for walking the subdirectory `name`: the subdirectory as
/// input, and as output the directory of the same name under the output
/// directory, where there is one.
pub open spec fn child_request(request: WalkRequestView, name: Seq<char>) -> WalkRequestView {
    WalkRequestView {
        input_dir: joined(request.input_dir, name),
        output_dir: match request.output_dir {
            Some(dir) => Some(joined(dir, name)),
            None => None,
        },
        keep_original_ext: request.keep_original_ext,
        quality: request.quality,
    }
}

/// The work one entry calls for: a file with a supported name is converted,
/// decoded as the format its extension names; a subdirectory is walked;
/// anything else is passed over.
pub open spec fn task_for(request: WalkRequestView, entry: DirEntryView) -> Option<TaskView> {
    match entry.kind {
        EntryKind::File => if supported_name(entry.name) {
            Some(
                TaskView::Convert {
                    plan: write_plan(
                        request.input_dir,
                        entry.name,
                        request.output_dir,
                        request.keep_original_ext,
                    ),
                    format: format_of(extension_of(entry.name)->0)->0,
                    quality: request.quality,
                },
            )
        } else {
            None
        },
        EntryKind::Directory => Some(TaskView::Descend(child_request(request, entry.name))),
        EntryKind::Other => None,
    }
}

/// The work a list of entries calls for, in the order of the entries.
pub open spec fn tasks_for(request: WalkRequestView, entries: Seq<DirEntryView>) -> Seq<TaskView>
    decreases entries.len(),
{
    if entries.len() == 0 {
        Seq::empty()
    } else {
        let earlier = tasks_for(request, entries.drop_last());
        match task_for(request, entries.last()) {
            Some(task) => earlier.push(task),
            None => earlier,
        }
    }
}

/// The work a listing calls for. An input that is no directory calls for
/// nothing, which is no failure. A directory that could not be read is a
/// failure of the file system.
pub open spec fn directory_tasks(request: WalkRequestView, listing: ListingView) -> Result<
    Seq<TaskView>,
    ConvertErrorView,
> {
    match listing {
        ListingView::Absent => Ok(Seq::empty()),
        ListingView::Unreadable(cause) => Err(
            ConvertErrorView::Filesystem { operation: FileOperation::ReadDirectory, cause },
        ),
        ListingView::Entries(entries) => Ok(tasks_for(request, entries)),
    }
}

/// The outcome of a walk step, by its views.
pub open spec fn outcome_view(r: Result<Vec<Task>, ConvertError>) -> Result<
    Seq<TaskView>,
    ConvertErrorView,
> {
    match r {
        Ok(tasks) => Ok(task_views(tasks@)),
        Err(e) => Err(e@),
    }
}

/// The request of a conversion into a separate output tree, or beside the
/// originals where no output directory is named: names are rewritten to
/// `.webp`.
pub open spec fn mirror_request(
    input_dir: Seq<char>,
    output_dir: Option<Seq<char>>,
    quality: Option<u8>,
) -> WalkRequestView {
    WalkRequestView {
        input_dir,
        output_dir,
        keep_original_ext: false,
        quality: quality_of(quality),
    }
}

/// The request of a conversion in place: no output directory, and the
/// original names kept only where asked for.
pub open spec fn in_place_request(
    input_dir: Seq<char>,
    keep_original_names: Option<bool>,
    quality: Option<u8>,
) -> WalkRequestView {
    WalkRequestView {
        input_dir,
        output_dir: None,
        keep_original_ext: match keep_original_names {
            Some(keep) => keep,
            None => false,
        },
        quality: quality_of(quality),
    }
}

/// Makes the listing of a directory from what reading its entries gave. One
/// entry that failed to read makes the directory unreadable, with the cause
/// of the first such entry; otherwise the listing holds the entries in the
/// order read.
pub fn collect_listing(read: Vec<Result<DirEntry, String>>) -> (listing: Listing)
    ensures
        listing@ == listing_of(read@.map_values(|r: Result<DirEntry, String>| read_view(r))),
{
    let ghost views = read@.map_values(|r: Result<DirEntry, String>| read_view(r));
    let mut entries: Vec<DirEntry> = Vec::new();
    let n: usize = read.len();
    let mut i: usize = 0;
    assert(entries@.map_values(|e: DirEntry| e@) =~= views.take(0).map_values(
        |r: Result<DirEntryView, Seq<char>>| r->Ok_0,
    ));
    while i < n
        invariant
            i <= n,
            n == read@.len(),
            views == read@.map_values(|r: Result<DirEntry, String>| read_view(r)),
            first_failure(views.take(i as int)) is None,
            entries@.len() == i,
            entries@.map_values(|e: DirEntry| e@) == views.take(i as int).map_values(
                |r: Result<DirEntryView, Seq<char>>| r->Ok_0,
            ),
        decreases n - i,
    {
        proof {
            assert(views.take(i + 1).drop_last() =~= views.take(i as int));
            assert(views.take(i + 1).last() == read_view(read@[i as int]));
        }
        match &read[i] {
            Ok(entry) => {
                let ghost before = entries@;
                entries.push(DirEntry { name: entry.name.clone(), kind: entry.kind });
                assert(entries@.map_values(|e: DirEntry| e@) =~= views.take(i + 1).map_values(
                    |r: Result<DirEntryView, Seq<char>>| r->Ok_0,
                )) by {
                    assert(entries@ == before.push(entries@[i as int]));
                    assert(entries@[i as int]@ == entry@);
                    assert forall|j: int| 0 <= j < i implies entries@[j]@ == views[j]->Ok_0 by {
                        assert(before.map_values(|e: DirEntry| e@)[j] == views.take(
                            i as int,
                        ).map_values(|r: Result<DirEntryView, Seq<char>>| r->Ok_0)[j]);
                    }
                }
            },
            Err(cause) => {
                proof {
                    lemma_first_failure_stands(views, i + 1);
                }
                return Listing::Unreadable(cause.clone());
            },
        }
        i = i + 1;
    }
    assert(views.take(n as int) =~= views);
    Listing::Entries(entries)
}

/// Decides what one entry calls for.
pub fn plan_entry(request: &WalkRequest, entry: &DirEntry) -> (task: Option<Task>)
    ensures
        match task {
            Some(t) => task_for(request@, entry@) == Some(t@),
            None => task_for(request@, entry@) is None,
        },
{
    let output_dir: Option<&str> = match &request.output_dir {
        Some(dir) => Some(dir.as_str()),
        None => None,
    };
    match entry.kind {
        EntryKind::File => {
            match extension(entry.name.as_str()) {
                Some(ext) => match format_from_hint(ext) {
                    Some(format) => {
                        let plan = plan_write(
                            request.input_dir.as_str(),
                            entry.name.as_str(),
                            output_dir,
                            request.keep_original_ext,
                        );
                        Some(Task::Convert { plan, format, quality: request.quality })
                    },
                    None => None,
                },
                None => None,
            }
        },
        EntryKind::Directory => {
            let input_dir = join_path(request.input_dir.as_str(), entry.name.as_str());
            let output_dir = match output_dir {
                Some(dir) => Some(join_path(dir, entry.name.as_str())),
                None => None,
            };
            Some(
                Task::Descend(
                    WalkRequest {
                        input_dir,
                        output_dir,
                        keep_original_ext: request.keep_original_ext,
                        quality: request.quality,
                    },
                ),
            )
        },
        EntryKind::Other => None,
    }
}

/// Decides the work of one directory from its listing: a conversion for each
/// file with a supported name and a walk for each subdirectory, in the order
/// of the listing. An input that is no directory calls for nothing and is no
/// failure; a directory that could not be read fails the walk.
pub fn process_directory_internal(request: &WalkRequest, listing: &Listing) -> (r: Result<
    Vec<Task>,
    ConvertError,
>)
    ensures
        outcome_view(r) == directory_tasks(request@, listing@),
        listing@ is Absent ==> r is Ok && r->Ok_0@.len() == 0,
{
    let mut tasks: Vec<Task> = Vec::new();
    match listing {
        Listing::Absent => {
            assert(task_views(tasks@) =~= Seq::empty());
            Ok(tasks)
        },
        Listing::Unreadable(cause) => Err(
            ConvertError::Filesystem {
                operation: FileOperation::ReadDirectory,
                cause: cause.clone(),
            },
        ),
        Listing::Entries(entries) => {
            let ghost all = entries@.map_values(|e: DirEntry| e@);
            let n: usize = entries.len();
            let mut i: usize = 0;
            assert(task_views(tasks@) =~= tasks_for(request@, all.take(0)));
            while i < n
                invariant
                    i <= n,
                    n == entries@.len(),
                    all == entries@.map_values(|e: DirEntry| e@),
                    task_views(tasks@) == tasks_for(request@, all.take(i as int)),
                decreases n - i,
            {
                let ghost before = tasks@;
                let planned = plan_entry(request, &entries[i]);
                proof {
                    assert(all.take(i + 1).drop_last() =~= all.take(i as int));
                    assert(all.take(i + 1).last() == entries@[i as int]@);
                }
                match planned {
                    Some(task) => {
                        tasks.push(task);
                        assert(task_views(tasks@) =~= task_views(before).push(task@));
                    },
                    None => {},
                }
                i = i + 1;
            }
            assert(all.take(n as int) =~= all);
            Ok(tasks)
        },
    }
}

/// Converts a directory into a separate output tree, or beside the originals
/// where no output directory is named: decides the work of `input_dir` from
/// its listing, with names rewritten to `.webp` and the default quality where
/// none is given.
pub fn process_directory(
    input_dir: String,
    output_dir: Option<String>,
    quality: Option<u8>,
    listing: &Listing,
) -> (r: Result<Vec<Task>, ConvertError>)
    ensures
        outcome_view(r) == directory_tasks(
            mirror_request(
                input_dir@,
                match output_dir {
                    Some(dir) => Some(dir@),
                    None => None,
                },
                quality,
            ),
            listing@,
        ),
        listing@ is Absent ==> r is Ok && r->Ok_0@.len() == 0,
{
    let request = WalkRequest {
        input_dir,
        output_dir,
        keep_original_ext: false,
        quality: quality_or_default(quality),
    };
    process_directory_internal(&request, listing)
}

/// Converts a directory in place: decides the work of `input_dir` from its
/// listing, with no output directory, the original names kept only where
/// asked for, and the default quality where none is given.
pub fn process_directory_destructive(
    input_dir: String,
    keep_original_names: Option<bool>,
    quality: Option<u8>,
    listing: &Listing,
) -> (r: Result<Vec<Task>, ConvertError>)
    ensures
        outcome_view(r) == directory_tasks(
            in_place_request(input_dir@, keep_original_names, quality),
            listing@,
        ),
        listing@ is Absent ==> r is Ok && r->Ok_0@.len() == 0,
{
    let request = WalkRequest {
        input_dir,
        output_dir: None,
        keep_original_ext: match keep_original_names {
            Some(keep) => keep,
            None => false,
        },
        quality: quality_or_default(quality),
    };
    process_directory_internal(&request, listing)
}

/// Entries that call for nothing can be added to a listing without a change
/// to the work it calls for.
pub proof fn lemma_idle_entries_change_nothing(
    request: WalkRequestView,
    entries: Seq<DirEntryView>,
    idle: Seq<DirEntryView>,
)
    requires
        forall|i: int| 0 <= i < idle.len() ==> task_for(request, #[trigger] idle[i]) is None,
    ensures
        tasks_for(request, entries + idle) == tasks_for(request, entries),
    decreases idle.len(),
{
    if idle.len() == 0 {
        assert(entries + idle =~= entries);
    } else {
        let all = entries + idle;
        assert(all.drop_last() =~= entries + idle.drop_last());
        assert(all.last() == idle[idle.len() - 1]);
        lemma_idle_entries_change_nothing(request, entries, idle.drop_last());
    }
}

/// The tasks that one entry calls for, as a bag: one task or none.
pub open spec fn task_bag(request: WalkRequestView, entry: DirEntryView) -> Multiset<TaskView> {
    match task_for(request, entry) {
        Some(task) => Multiset::singleton(task),
        None => Multiset::empty(),
    }
}

/// Taking one entry out of a listing takes out the task it called for, if it
/// called for one, and no other.
pub proof fn lemma_tasks_without_entry(
    request: WalkRequestView,
    entries: Seq<DirEntryView>,
    k: int,
)
    requires
        0 <= k < entries.len(),
    ensures
        tasks_for(request, entries).to_multiset() == tasks_for(
            request,
            entries.remove(k),
        ).to_multiset().add(task_bag(request, entries[k])),
    decreases entries.len(),
{
    broadcast use vstd::seq_lib::group_to_multiset_ensures;

    let front = entries.drop_last();
    let earlier = tasks_for(request, front);
    if k == entries.len() - 1 {
        assert(entries.remove(k) =~= front);
        match task_for(request, entries.last()) {
            Some(task) => {
                assert(earlier.push(task).to_multiset() =~= earlier.to_multiset().add(
                    Multiset::singleton(task),
                ));
            },
            None => {
                assert(earlier.to_multiset() =~= earlier.to_multiset().add(Multiset::empty()));
            },
        }
    } else {
        let rest = entries.remove(k);
        assert(rest.drop_last() =~= front.remove(k));
        assert(rest.last() == entries.last());
        assert(front[k] == entries[k]);
        lemma_tasks_without_entry(request, front, k);
        let fewer = tasks_for(request, front.remove(k));
        let bag = task_bag(request, entries[k]);
        match task_for(request, entries.last()) {
            Some(task) => {
                assert(earlier.push(task).to_multiset() =~= fewer.push(task).to_multiset().add(
                    bag,
                ));
            },
            None => {},
        }
    }
}

/// The work a directory calls for does not depend on the order in which it
/// is listed: two listings with the same entries call for the same tasks,
/// each as often in one as in the other.
pub proof fn lemma_tasks_whatever_the_order(
    request: WalkRequestView,
    first: Seq<DirEntryView>,
    second: Seq<DirEntryView>,
)
    requires
        first.to_multiset() == second.to_multiset(),
    ensures
        tasks_for(request, first).to_multiset() == tasks_for(request, second).to_multiset(),
    decreases first.len(),
{
    broadcast use vstd::seq_lib::group_to_multiset_ensures;

    assert(first.to_multiset().len() == first.len());
    assert(second.to_multiset().len() == second.len());
    if first.len() == 0 {
        assert(first =~= second);
    } else {
        let entry = first.last();
        assert(first.contains(entry));
        assert(second.to_multiset().count(entry) > 0);
        assert(second.contains(entry));
        let k = choose|k: int| 0 <= k < second.len() && second[k] == entry;
        let last = first.len() - 1;
        assert(first.remove(last).to_multiset() == second.remove(k).to_multiset());
        lemma_tasks_whatever_the_order(request, first.remove(last), second.remove(k));
        lemma_tasks_without_entry(request, first, last);
        lemma_tasks_without_entry(request, second, k);
    }
}

/// A second run plans what the first planned. The files that conversions
/// write, finished or staged, are named by giving a source the extension
/// `webp` or `webp.tmp`. A second listing that holds the entries of the
/// first and such files, in whatever order, calls for the tasks of the first
/// listing, each as often, and for no others.
pub proof fn lemma_written_files_are_not_replanned(
    request: WalkRequestView,
    first: Seq<DirEntryView>,
    written: Seq<DirEntryView>,
    sources: Seq<Seq<char>>,
    second: Seq<DirEntryView>,
)
    requires
        written.len() == sources.len(),
        forall|i: int|
            0 <= i < written.len() ==> (#[trigger] written[i]).kind == EntryKind::File && (
            written[i].name == renamed(sources[i], "webp"@) || written[i].name == renamed(
                sources[i],
                "webp.tmp"@,
            )),
        second.to_multiset() == first.to_multiset().add(written.to_multiset()),
    ensures
        tasks_for(request, second).to_multiset() == tasks_for(request, first).to_multiset(),
        tasks_for(request, first + written) == tasks_for(request, first),
{
    assert forall|i: int| 0 <= i < written.len() implies task_for(
        request,
        #[trigger] written[i],
    ) is None by {
        lemma_written_names_unsupported(sources[i]);
    }
    lemma_idle_entries_change_nothing(request, first, written);
    vstd::seq_lib::lemma_multiset_commutative(first, written);
    lemma_tasks_whatever_the_order(request, second, first + written);
}

/// Only a conversion that keeps the original names replaces its source. With
/// names rewritten, the target of a conversion is never its source and there
/// is no staging file. With names kept and no output directory, the target
/// is the source and the write goes through the staging file.
pub proof fn lemma_in_place_only_when_names_kept(request: WalkRequestView, entry: DirEntryView)
    requires
        task_for(request, entry) is Some,
        task_for(request, entry)->0 is Convert,
    ensures
        ({
            let plan = task_for(request, entry)->0->plan;
            &&& !request.keep_original_ext ==> plan.target != plan.source && plan.staging is None
            &&& request.keep_original_ext && request.output_dir is None ==> plan.target
                == plan.source && plan.staging is Some
        }),
{
    if !request.keep_original_ext {
        lemma_rewritten_target_is_new(request.input_dir, entry.name, request.output_dir);
    }
}

} // verus!
