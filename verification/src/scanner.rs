//! Recognising table directories in a walk and gathering what a scan found.

use crate::introspect::{details_of, get_table_details, lemma_details_well_formed, TableProbe};
use crate::models::{
    opt_text, AppError, AppErrorView, ErrorCategory, ScanResult, TableSummary, TableSummaryView,
};
use crate::schema::schema_columns;
use crate::text::{chars_of, ends_with, matches_at, same_text};
use std::path::Path;
use vstd::prelude::*;
use vstd::string::{StrSliceExecFns, StringExecFns};

verus! {

/// What a directory entry is, links resolved.
#[derive(Debug, Clone, Copy, PartialEq, Eq, Structural)]
pub enum EntryKind {
    File,
    Directory,
    Other,
}

/// One entry of a directory listing: its name and what it is.
#[derive(Debug, Clone)]
pub struct DirEntryInfo {
    pub name: String,
    pub kind: EntryKind,
}

impl View for DirEntryInfo {
    type V = (Seq<char>, EntryKind);

    open spec fn view(&self) -> (Seq<char>, EntryKind) {
        (self.name@, self.kind)
    }
}

/// What an entry is: a file where the path resolves to a regular file, a
/// directory where it resolves to a directory, and something else otherwise.
pub open spec fn entry_kind_of(is_file: bool, is_dir: bool) -> EntryKind {
    if is_file {
        EntryKind::File
    } else if is_dir {
        EntryKind::Directory
    } else {
        EntryKind::Other
    }
}

/// What an entry is, from what the file system says of the path it resolves to.
pub fn entry_kind(is_file: bool, is_dir: bool) -> (kind: EntryKind)
    ensures
        kind == entry_kind_of(is_file, is_dir),
{
    if is_file {
        EntryKind::File
    } else if is_dir {
        EntryKind::Directory
    } else {
        EntryKind::Other
    }
}

/// The views of a directory listing.
pub open spec fn listing_view(listing: Seq<DirEntryInfo>) -> Seq<(Seq<char>, EntryKind)> {
    listing.map_values(|e: DirEntryInfo| e@)
}

/// An entry that marks its directory as the root of a table: the file
/// `_latest.manifest`, the directory `_versions` or the directory `_transactions`.
pub open spec fn is_table_marker(entry: (Seq<char>, EntryKind)) -> bool {
    ||| entry.0 == "_latest.manifest"@ && entry.1 == EntryKind::File
    ||| entry.0 == "_versions"@ && entry.1 == EntryKind::Directory
    ||| entry.0 == "_transactions"@ && entry.1 == EntryKind::Directory
}

/// A directory is the root of a table when its listing holds a marker.
pub open spec fn is_table_root(listing: Seq<(Seq<char>, EntryKind)>) -> bool {
    exists|i: int| 0 <= i < listing.len() && is_table_marker(#[trigger] listing[i])
}

/// Tells whether an entry marks its directory as the root of a table.
pub fn marks_table(entry: &DirEntryInfo) -> (marks: bool)
    ensures
        marks == is_table_marker(entry@),
{
    match entry.kind {
        EntryKind::File => same_text(entry.name.as_str(), "_latest.manifest"),
        EntryKind::Directory => same_text(entry.name.as_str(), "_versions") || same_text(
            entry.name.as_str(),
            "_transactions",
        ),
        EntryKind::Other => false,
    }
}

/// Tells from the listing of a directory whether it is the root of a table.
pub fn looks_like_lancedb_dir(listing: &Vec<DirEntryInfo>) -> (root: bool)
    ensures
        root == is_table_root(listing_view(listing@)),
{
    let ghost view = listing_view(listing@);
    let mut i: usize = 0;
    while i < listing.len()
        invariant
            i <= listing.len(),
            view == listing_view(listing@),
            forall|k: int| 0 <= k < i ==> !is_table_marker(#[trigger] view[k]),
        decreases listing.len() - i,
    {
        assert(view[i as int] == listing@[i as int]@);
        if marks_table(&listing[i]) {
            return true;
        }
        i += 1;
    }
    false
}

/// The name of the table that a directory holds: the directory's name without
/// the ending `.lance`, if it has that ending.
pub open spec fn table_name_for(dir_name: Seq<char>) -> Seq<char> {
    if ends_with(dir_name, ".lance"@) {
        dir_name.subrange(0, dir_name.len() - ".lance"@.len())
    } else {
        dir_name
    }
}

/// Derives the name of a table from the name of its directory.
pub fn table_name_of(dir_name: &str) -> (table_name: String)
    ensures
        table_name@ == table_name_for(dir_name@),
{
    let name = chars_of(dir_name);
    let ending = chars_of(".lance");
    if ending.len() <= name.len() && matches_at(&name, &ending, name.len() - ending.len()) {
        dir_name.substring_char(0, name.len() - ending.len()).to_owned()
    } else {
        dir_name.to_owned()
    }
}

/// A table that a walk came upon: the dataset that holds it and its name there.
#[derive(Debug, Clone)]
pub struct TableTarget {
    pub db_path: String,
    pub table_name: String,
}

impl View for TableTarget {
    type V = (Seq<char>, Seq<char>);

    open spec fn view(&self) -> (Seq<char>, Seq<char>) {
        (self.db_path@, self.table_name@)
    }
}

/// The dataset and table of a table directory: the dataset is the parent of the
/// directory, or the directory itself where it has none; the table is named after
/// the directory's last component, or has the empty name where there is none.
pub open spec fn target_for(
    path: Seq<char>,
    parent: Option<Seq<char>>,
    file_name: Option<Seq<char>>,
) -> (Seq<char>, Seq<char>) {
    (
        match parent {
            Some(p) => p,
            None => path,
        },
        match file_name {
            Some(n) => table_name_for(n),
            None => Seq::<char>::empty(),
        },
    )
}

/// A directory named `stem` followed by `.lance` holds the table `stem`, and its
/// parent is the dataset.
pub proof fn lemma_lance_directory(path: Seq<char>, parent: Seq<char>, stem: Seq<char>)
    ensures
        table_name_for(stem + ".lance"@) == stem,
        target_for(path, Some(parent), Some(stem + ".lance"@)) == (parent, stem),
{
    let name = stem + ".lance"@;
    assert(name.subrange(name.len() - ".lance"@.len(), name.len() as int) =~= ".lance"@);
    assert(name.subrange(0, name.len() - ".lance"@.len()) =~= stem);
}

/// Derives dataset and table from the path of a table directory, its parent and
/// its last component.
pub fn target_from(path: &str, parent: Option<String>, file_name: Option<String>) -> (target:
    TableTarget)
    ensures
        target@ == target_for(path@, opt_text(parent), opt_text(file_name)),
{
    let db_path = match parent {
        Some(p) => p,
        None => path.to_owned(),
    };
    let table_name = match file_name {
        Some(n) => table_name_of(n.as_str()),
        None => String::new(),
    };
    TableTarget { db_path, table_name }
}

/// A name that every platform reads as one component of a path: not empty,
/// neither `.` nor `..`, and free of slashes, backslashes and colons.
pub open spec fn is_plain_name(name: Seq<char>) -> bool {
    &&& name.len() > 0
    &&& name != seq!['.']
    &&& name != seq!['.', '.']
    &&& forall|i: int|
        0 <= i < name.len() ==> name[i] != '/' && name[i] != '\\' && name[i] != ':'
}

/// The position of the last slash of a path, or -1 where it has none.
pub open spec fn last_slash(path: Seq<char>) -> int
    decreases path.len(),
{
    if path.len() == 0 {
        -1
    } else if path.last() == '/' {
        path.len() - 1
    } else {
        last_slash(path.drop_last())
    }
}

/// What follows the last slash of a path; the whole path where it has none.
pub open spec fn final_part(path: Seq<char>) -> Seq<char> {
    path.subrange(last_slash(path) + 1, path.len() as int)
}

/// What stands before the last slash of a path; nothing where it has none.
pub open spec fn leading_part(path: Seq<char>) -> Seq<char> {
    if last_slash(path) < 0 {
        Seq::<char>::empty()
    } else {
        path.subrange(0, last_slash(path))
    }
}

/// A path that every platform splits at its last slash: it holds no backslash,
/// no colon and no two slashes in a row, it ends in a plain name, and what
/// stands before the last slash, if there is one, ends in a plain name too.
pub open spec fn splits_plainly(path: Seq<char>) -> bool {
    &&& is_plain_name(final_part(path))
    &&& forall|i: int| 0 <= i < path.len() ==> path[i] != '\\' && path[i] != ':'
    &&& forall|i: int, j: int|
        0 <= i && j == i + 1 && j < path.len() ==> !(#[trigger] path[i] == '/' && #[trigger] path[j]
            == '/')
    &&& last_slash(path) >= 0 ==> is_plain_name(final_part(leading_part(path)))
}

/// `std::path::Path::parent`: the path without its last component, if it has
/// one. How a path falls into components is the platform's matter; of a path
/// that splits plainly the result is, on every platform, what stands before
/// the last slash, and the empty path where there is no slash. Nothing is
/// stated of other paths.
#[verifier::external_body]
fn path_parent(path: &str) -> (parent: Option<String>)
    ensures
        splits_plainly(path@) ==> opt_text(parent) == Some(leading_part(path@)),
{
    Path::new(path).parent().map(|p| p.to_string_lossy().into_owned())
}

/// `std::path::Path::file_name`: the last component of the path, if it ends in
/// one. Of a path that splits plainly the result is, on every platform, what
/// follows the last slash. Nothing is stated of other paths.
#[verifier::external_body]
fn path_file_name(path: &str) -> (name: Option<String>)
    ensures
        splits_plainly(path@) ==> opt_text(name) == Some(final_part(path@)),
{
    Path::new(path).file_name().map(|n| n.to_string_lossy().into_owned())
}

/// The last slash of a path lies in the path and is a slash, and no slash
/// follows it.
pub proof fn lemma_last_slash_is_last(path: Seq<char>)
    ensures
        -1 <= last_slash(path) < path.len(),
        last_slash(path) >= 0 ==> path[last_slash(path)] == '/',
        forall|i: int| last_slash(path) < i < path.len() ==> path[i] != '/',
    decreases path.len(),
{
    if path.len() > 0 && path.last() != '/' {
        lemma_last_slash_is_last(path.drop_last());
        assert forall|i: int| last_slash(path) < i < path.len() implies path[i] != '/' by {
            if i < path.len() - 1 {
                assert(path[i] == path.drop_last()[i]);
            }
        }
    }
}

/// The last slash of a path that ends in a slash and a name without slashes
/// is the one before the name.
pub proof fn lemma_last_slash(dir: Seq<char>, name: Seq<char>)
    requires
        forall|i: int| 0 <= i < name.len() ==> name[i] != '/',
    ensures
        last_slash(dir + seq!['/'] + name) == dir.len(),
        final_part(dir + seq!['/'] + name) == name,
        leading_part(dir + seq!['/'] + name) == dir,
    decreases name.len(),
{
    let path = dir + seq!['/'] + name;
    if name.len() == 0 {
        assert(path.last() == '/');
    } else {
        assert(path.last() == name.last());
        assert(path.drop_last() =~= dir + seq!['/'] + name.drop_last());
        lemma_last_slash(dir, name.drop_last());
    }
    assert(path.subrange(dir.len() as int + 1, path.len() as int) =~= name);
    assert(path.subrange(0, dir.len() as int) =~= dir);
}

/// A name without slashes has no last slash, and is its own final part.
pub proof fn lemma_no_slash(name: Seq<char>)
    requires
        forall|i: int| 0 <= i < name.len() ==> name[i] != '/',
    ensures
        last_slash(name) == -1,
        final_part(name) == name,
        leading_part(name) == Seq::<char>::empty(),
    decreases name.len(),
{
    if name.len() > 0 {
        lemma_no_slash(name.drop_last());
    }
    assert(name.subrange(0, name.len() as int) =~= name);
}

/// A table directory named `stem` followed by `.lance`, in a directory whose
/// path splits plainly, holds the table `stem` of the dataset at that path.
pub proof fn lemma_lance_directory_in(dir: Seq<char>, stem: Seq<char>)
    requires
        splits_plainly(dir),
        is_plain_name(stem + ".lance"@),
    ensures
        splits_plainly(dir + seq!['/'] + stem + ".lance"@),
        target_for(
            dir + seq!['/'] + stem + ".lance"@,
            Some(leading_part(dir + seq!['/'] + stem + ".lance"@)),
            Some(final_part(dir + seq!['/'] + stem + ".lance"@)),
        ) == (dir, stem),
{
    let name = stem + ".lance"@;
    let path = dir + seq!['/'] + name;
    assert(path =~= dir + seq!['/'] + stem + ".lance"@);
    lemma_last_slash(dir, name);
    lemma_lance_directory(path, dir, stem);
    assert forall|i: int| 0 <= i < path.len() implies path[i] != '\\' && path[i] != ':' by {
        if i < dir.len() {
            assert(path[i] == dir[i]);
        } else if i > dir.len() {
            assert(path[i] == name[i - dir.len() - 1]);
        }
    }
    assert(dir.len() > 0 && dir.last() != '/') by {
        lemma_last_slash_is_last(dir);
        let d = final_part(dir);
        assert(d.len() > 0);
        assert(d.last() == dir.last());
        assert(d.last() != '/');
    }
    assert forall|i: int, j: int| 0 <= i && j == i + 1 && j < path.len() implies !(
    #[trigger] path[i] == '/' && #[trigger] path[j] == '/') by {
        if j < dir.len() {
            assert(path[i] == dir[i] && path[j] == dir[j]);
        } else if j == dir.len() {
            assert(path[i] == dir.last());
        } else if i == dir.len() {
            assert(path[j] == name[0]);
        } else {
            assert(path[i] == name[i - dir.len() - 1]);
        }
    }
}

/// The dataset and table of the table directory at `path`, by the platform's
/// reading of the path. Of a path that splits plainly the dataset is what
/// stands before the last slash, and the table is named after what follows it.
pub fn table_target(path: &str) -> (target: TableTarget)
    ensures
        splits_plainly(path@) ==> target@ == target_for(
            path@,
            Some(leading_part(path@)),
            Some(final_part(path@)),
        ),
        exists|parent: Option<Seq<char>>, file_name: Option<Seq<char>>|
            target@ == #[trigger] target_for(path@, parent, file_name),
{
    let parent = path_parent(path);
    let file_name = path_file_name(path);
    let ghost parent_view = opt_text(parent);
    let ghost name_view = opt_text(file_name);
    let target = target_from(path, parent, file_name);
    assert(target@ == target_for(path@, parent_view, name_view));
    target
}

/// What a walk does with an entry.
#[derive(Debug, Clone, Copy, PartialEq, Eq, Structural)]
pub enum EntryPlan {
    /// A symbolic link: neither reported nor entered.
    Exclude,
    /// Not a directory: nothing is done with it.
    Pass,
    /// A directory that holds no table: the walk goes on inside it.
    Enter,
    /// The root of a table: it is inspected, and the walk does not look for
    /// tables inside it.
    Inspect,
}

/// The plan for an entry: from whether it is a symbolic link, whether it is a
/// directory, and its listing if it is one.
pub open spec fn plan_for(
    is_symlink: bool,
    is_dir: bool,
    listing: Seq<(Seq<char>, EntryKind)>,
) -> EntryPlan {
    if is_symlink {
        EntryPlan::Exclude
    } else if !is_dir {
        EntryPlan::Pass
    } else if is_table_root(listing) {
        EntryPlan::Inspect
    } else {
        EntryPlan::Enter
    }
}

/// Decides what the walk does with an entry.
pub fn plan_entry(is_symlink: bool, is_dir: bool, listing: &Vec<DirEntryInfo>) -> (plan: EntryPlan)
    ensures
        plan == plan_for(is_symlink, is_dir, listing_view(listing@)),
{
    if is_symlink {
        EntryPlan::Exclude
    } else if !is_dir {
        EntryPlan::Pass
    } else if looks_like_lancedb_dir(listing) {
        EntryPlan::Inspect
    } else {
        EntryPlan::Enter
    }
}

impl EntryPlan {
    /// The walk goes on inside the entry.
    pub open spec fn enters(self) -> bool {
        self == EntryPlan::Enter
    }

    /// The entry is reported as a table, or as a warning where its details
    /// cannot be had.
    pub open spec fn inspects(self) -> bool {
        self == EntryPlan::Inspect
    }
}

/// Tells whether the walk goes on inside an entry with this plan.
pub fn walk_enters(plan: EntryPlan) -> (enters: bool)
    ensures
        enters == plan.enters(),
{
    match plan {
        EntryPlan::Enter => true,
        _ => false,
    }
}

/// Tells whether an entry with this plan is inspected as a table.
pub fn walk_inspects(plan: EntryPlan) -> (inspects: bool)
    ensures
        inspects == plan.inspects(),
{
    match plan {
        EntryPlan::Inspect => true,
        _ => false,
    }
}

/// A symbolic link is never entered and never inspected, whatever it points at.
pub proof fn lemma_symlink_excluded(is_dir: bool, listing: Seq<(Seq<char>, EntryKind)>)
    ensures
        plan_for(true, is_dir, listing) == EntryPlan::Exclude,
        !plan_for(true, is_dir, listing).enters(),
        !plan_for(true, is_dir, listing).inspects(),
{
}

/// The walk goes on inside exactly the directories that are no links and hold
/// no table, and inspects exactly those that are no links and hold one: the
/// root of a table is never entered.
pub proof fn lemma_entered_or_inspected(
    is_symlink: bool,
    is_dir: bool,
    listing: Seq<(Seq<char>, EntryKind)>,
)
    ensures
        plan_for(is_symlink, is_dir, listing).enters() <==> !is_symlink && is_dir
            && !is_table_root(listing),
        plan_for(is_symlink, is_dir, listing).inspects() <==> !is_symlink && is_dir
            && is_table_root(listing),
{
}

/// The warning for an error of the walk itself.
pub open spec fn walk_warning(message: Seq<char>) -> Seq<char> {
    "walk error: "@ + message
}

/// An error in words: its message, followed by its detail in parentheses where
/// it has one that is not empty.
pub open spec fn failure_text(error: AppErrorView) -> Seq<char> {
    match error.detail {
        Some(detail) => if detail.len() > 0 {
            error.message + " ("@ + detail + ")"@
        } else {
            error.message
        },
        None => error.message,
    }
}

/// The warning for a table whose details could not be had.
pub open spec fn failure_warning(
    db_path: Seq<char>,
    table_name: Seq<char>,
    error: AppErrorView,
) -> Seq<char> {
    "table metadata failed: "@ + db_path + "/"@ + table_name + " - "@ + failure_text(error)
}

/// Writes the warning for an error of the walk.
pub fn describe_walk_error(message: &str) -> (warning: String)
    ensures
        warning@ == walk_warning(message@),
{
    let mut warning = "walk error: ".to_owned();
    warning.append(message);
    warning
}

/// Writes an error in words.
pub fn describe_failure(error: &AppError) -> (text: String)
    ensures
        text@ == failure_text(error@),
{
    let mut text = error.message.clone();
    match &error.detail {
        Some(detail) => {
            if !detail.as_str().is_empty() {
                text.append(" (");
                text.append(detail.as_str());
                text.append(")");
            }
        },
        None => {},
    }
    text
}

/// Writes the warning for a table whose details could not be had.
pub fn describe_table_failure(db_path: &str, table_name: &str, error: &AppError) -> (warning: String)
    ensures
        warning@ == failure_warning(db_path@, table_name@, error@),
{
    let mut warning = "table metadata failed: ".to_owned();
    warning.append(db_path);
    warning.append("/");
    warning.append(table_name);
    warning.append(" - ");
    let text = describe_failure(error);
    warning.append(text.as_str());
    warning
}

/// What the file system says of the folder to scan.
#[derive(Debug, Clone, Copy, PartialEq, Eq, Structural)]
pub enum RootKind {
    Missing,
    NotADirectory,
    Directory,
}

/// What the folder to scan is: missing, something that is no directory, or a
/// directory.
pub open spec fn root_kind_of(exists: bool, is_dir: bool) -> RootKind {
    if !exists {
        RootKind::Missing
    } else if !is_dir {
        RootKind::NotADirectory
    } else {
        RootKind::Directory
    }
}

/// What the folder to scan is, from whether it exists and whether it is a
/// directory.
pub fn root_kind(exists: bool, is_dir: bool) -> (kind: RootKind)
    ensures
        kind == root_kind_of(exists, is_dir),
{
    if !exists {
        RootKind::Missing
    } else if !is_dir {
        RootKind::NotADirectory
    } else {
        RootKind::Directory
    }
}

/// What a walk hands over, in the order in which it came upon it.
pub enum ScanEvent {
    /// The walk could not read an entry.
    WalkFailed { message: String },
    /// The walk came upon a table, and the storage engine was asked for it.
    Candidate { db_path: String, table_name: String, probe: TableProbe },
}

/// The tables that a scan reports after these events: one for each candidate
/// whose details could be had, in the order of the events.
pub open spec fn tables_after(events: Seq<ScanEvent>) -> Seq<TableSummaryView>
    decreases events.len(),
{
    if events.len() == 0 {
        Seq::<TableSummaryView>::empty()
    } else {
        let before = tables_after(events.drop_last());
        match events.last() {
            ScanEvent::WalkFailed { .. } => before,
            ScanEvent::Candidate { db_path, table_name, probe } => match details_of(
                db_path@,
                table_name@,
                probe,
            ) {
                Ok(details) => before.push(details.summary()),
                Err(_) => before,
            },
        }
    }
}

/// The warnings that a scan reports after these events: one for each error of
/// the walk and one for each candidate whose details could not be had, in the
/// order of the events.
pub open spec fn warnings_after(events: Seq<ScanEvent>) -> Seq<Seq<char>>
    decreases events.len(),
{
    if events.len() == 0 {
        Seq::<Seq<char>>::empty()
    } else {
        let before = warnings_after(events.drop_last());
        match events.last() {
            ScanEvent::WalkFailed { message } => before.push(walk_warning(message@)),
            ScanEvent::Candidate { db_path, table_name, probe } => match details_of(
                db_path@,
                table_name@,
                probe,
            ) {
                Ok(_) => before,
                Err(error) => before.push(failure_warning(db_path@, table_name@, error)),
            },
        }
    }
}

/// The event is a candidate whose details could be had.
pub open spec fn yields_table(event: ScanEvent) -> bool {
    match event {
        ScanEvent::WalkFailed { .. } => false,
        ScanEvent::Candidate { db_path, table_name, probe } => details_of(
            db_path@,
            table_name@,
            probe,
        ) is Ok,
    }
}

/// The number of events that yield a table.
pub open spec fn tables_yielded(events: Seq<ScanEvent>) -> nat
    decreases events.len(),
{
    if events.len() == 0 {
        0
    } else {
        tables_yielded(events.drop_last()) + if yields_table(events.last()) {
            1nat
        } else {
            0nat
        }
    }
}

/// Every event is reported exactly once: as a table where it yields one, as a
/// warning where it does not.
pub proof fn lemma_each_event_once(events: Seq<ScanEvent>)
    ensures
        tables_after(events).len() == tables_yielded(events),
        warnings_after(events).len() == events.len() - tables_yielded(events),
        tables_yielded(events) <= events.len(),
    decreases events.len(),
{
    if events.len() > 0 {
        lemma_each_event_once(events.drop_last());
    }
}

/// Every table that a scan reports hangs together.
pub proof fn lemma_tables_well_formed(events: Seq<ScanEvent>)
    ensures
        forall|i: int|
            0 <= i < tables_after(events).len() ==> (#[trigger] tables_after(
                events,
            )[i]).well_formed(),
    decreases events.len(),
{
    if events.len() > 0 {
        let before = tables_after(events.drop_last());
        lemma_tables_well_formed(events.drop_last());
        match events.last() {
            ScanEvent::WalkFailed { .. } => {},
            ScanEvent::Candidate { db_path, table_name, probe } => {
                match probe {
                    TableProbe::Ready { row_count, schema } => {
                        lemma_details_well_formed(
                            db_path@,
                            table_name@,
                            row_count,
                            schema_columns(schema),
                        );
                    },
                    _ => {},
                }
            },
        }
        assert forall|i: int| 0 <= i < tables_after(events).len() implies (#[trigger] tables_after(
            events,
        )[i]).well_formed() by {
            if i < before.len() {
                assert(tables_after(events)[i] == before[i]);
            }
        }
    }
}

/// A walk that came upon no table reports no table, and one warning for each
/// of its own errors; a walk without events reports nothing at all.
pub proof fn lemma_no_table_found(events: Seq<ScanEvent>)
    requires
        forall|i: int| 0 <= i < events.len() ==> events[i] is WalkFailed,
    ensures
        tables_after(events).len() == 0,
        warnings_after(events).len() == events.len(),
    decreases events.len(),
{
    if events.len() > 0 {
        let front = events.drop_last();
        assert forall|i: int| 0 <= i < front.len() implies front[i] is WalkFailed by {
            assert(front[i] == events[i]);
        }
        lemma_no_table_found(front);
    }
}

/// A walk that came upon two tables, one whose details can be had and one whose
/// details cannot, reports exactly one table and exactly one warning, in
/// whichever order it came upon them.
pub proof fn lemma_one_table_one_warning(first: ScanEvent, second: ScanEvent)
    requires
        first is Candidate,
        second is Candidate,
        yields_table(first) != yields_table(second),
    ensures
        tables_after(seq![first, second]).len() == 1,
        warnings_after(seq![first, second]).len() == 1,
{
    let events = seq![first, second];
    let front = events.drop_last();
    assert(front =~= seq![first]);
    assert(front.drop_last() =~= Seq::<ScanEvent>::empty());
    assert(front.last() == first);
    assert(events.last() == second);
    assert(tables_yielded(front.drop_last()) == 0);
    assert(tables_yielded(front) == if yields_table(first) {
        1nat
    } else {
        0nat
    });
    assert(tables_yielded(events) == 1);
    lemma_each_event_once(events);
}

/// The error for a folder that is missing or is no directory.
pub open spec fn invalid_root(path: Seq<char>) -> AppErrorView {
    AppErrorView {
        category: ErrorCategory::InvalidPath,
        message: "Folder path is invalid"@,
        detail: Some(path),
    }
}

/// The outcome of scanning the folder at `path`: an error where the folder is
/// missing or is no directory, and that is the only error; else the tables and
/// warnings that the events of the walk amount to.
pub fn scan_folder(path: &str, root: RootKind, events: &Vec<ScanEvent>) -> (result: Result<
    ScanResult,
    AppError,
>)
    ensures
        match result {
            Ok(found) => root == RootKind::Directory && found@.tables == tables_after(events@)
                && found@.warnings == warnings_after(events@),
            Err(error) => root != RootKind::Directory && error@ == invalid_root(path@),
        },
{
    match root {
        RootKind::Directory => {},
        _ => {
            return Err(
                AppError::new(
                    ErrorCategory::InvalidPath,
                    "Folder path is invalid",
                    Some(path.to_owned()),
                ),
            );
        },
    }
    let mut tables: Vec<TableSummary> = Vec::new();
    let mut warnings: Vec<String> = Vec::new();
    let mut i: usize = 0;
    while i < events.len()
        invariant
            i <= events.len(),
            tables@.map_values(|t: TableSummary| t@) == tables_after(events@.take(i as int)),
            warnings@.map_values(|w: String| w@) == warnings_after(events@.take(i as int)),
        decreases events.len() - i,
    {
        proof {
            assert(events@.take(i + 1).drop_last() =~= events@.take(i as int));
            assert(events@.take(i + 1).last() == events@[i as int]);
        }
        let ghost tables_before = tables@.map_values(|t: TableSummary| t@);
        let ghost warnings_before = warnings@.map_values(|w: String| w@);
        match &events[i] {
            ScanEvent::WalkFailed { message } => {
                let warning = describe_walk_error(message.as_str());
                warnings.push(warning);
                assert(warnings@.map_values(|w: String| w@) =~= warnings_before.push(warning@));
            },
            ScanEvent::Candidate { db_path, table_name, probe } => {
                match get_table_details(db_path.as_str(), table_name.as_str(), probe) {
                    Ok(details) => {
                        let ghost summary = details@.summary();
                        tables.push(details.into_summary());
                        assert(tables@.map_values(|t: TableSummary| t@) =~= tables_before.push(
                            summary,
                        ));
                    },
                    Err(error) => {
                        let warning = describe_table_failure(
                            db_path.as_str(),
                            table_name.as_str(),
                            &error,
                        );
                        warnings.push(warning);
                        assert(warnings@.map_values(|w: String| w@) =~= warnings_before.push(
                            warning@,
                        ));
                    },
                }
            },
        }
        i += 1;
    }
    proof {
        assert(events@.take(events@.len() as int) =~= events@);
    }
    Ok(ScanResult { tables, warnings })
}

} // verus!
