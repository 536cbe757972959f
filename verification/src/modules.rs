//! Module discovery: `use name;` is looked up as `name.kes` next to the file
//! that wrote it, transitively, with import cycles rejected and repeated
//! imports discovered once.

use vstd::prelude::*;

use crate::error::{resolve_error, ErrorView, KestrelcError};

verus! {

/// The directory part of a path, as `std::path::Path::parent` computes it.
pub uninterp spec fn path_parent(path: Seq<char>) -> Option<Seq<char>>;

/// A file name placed under a directory, as `std::path::Path::join` computes it.
pub uninterp spec fn path_join(dir: Seq<char>, file: Seq<char>) -> Seq<char>;

/// Wraps `std::path::Path::parent`; the text of the parent is named by
/// `path_parent`.
#[verifier::external_body]
fn parent_of(path: &str) -> (parent: Option<String>)
    ensures
        match parent {
            Some(p) => path_parent(path@) == Some(p@),
            None => path_parent(path@) is None,
        },
{
    match std::path::Path::new(path).parent() {
        Some(p) => Some(p.to_string_lossy().into_owned()),
        None => None,
    }
}

/// Wraps `std::path::Path::join`; the text of the result is named by
/// `path_join`.
#[verifier::external_body]
fn join_path(dir: &str, file: &str) -> (joined: String)
    ensures
        joined@ == path_join(dir@, file@),
{
    std::path::Path::new(dir).join(file).to_string_lossy().into_owned()
}

/// The directory a `use` in `importer` is resolved against: the importer's
/// own directory, or `.` when the importer path has none.
pub open spec fn module_dir(importer: Seq<char>) -> Seq<char> {
    match path_parent(importer) {
        Some(dir) => dir,
        None => "."@,
    }
}

/// The one place where `use name;` written in `importer` may be found.
pub open spec fn module_file_path(importer: Seq<char>, name: Seq<char>) -> Seq<char> {
    path_join(module_dir(importer), name + ".kes"@)
}

/// A `use name;` written in a file is looked for as `name.kes` joined onto
/// the file's parent directory, whatever that directory is (absolute,
/// relative or empty); only a path with no parent at all is resolved
/// against `.`.
pub proof fn law_module_resolved_next_to_importer(importer: Seq<char>, name: Seq<char>)
    ensures
        path_parent(importer) matches Some(dir) ==> module_file_path(importer, name) == path_join(
            dir,
            name + ".kes"@,
        ),
        path_parent(importer) is None ==> module_file_path(importer, name) == path_join(
            "."@,
            name + ".kes"@,
        ),
{
}

/// The path that `use module_name;` written in the file at `importer_path`
/// refers to: `module_name.kes` in the importer's directory. Whether a file
/// stands there is for the caller to check.
pub fn resolve_module_path(importer_path: &str, module_name: &str) -> (candidate: String)
    ensures
        candidate@ == module_file_path(importer_path@, module_name@),
{
    let dir = match parent_of(importer_path) {
        Some(d) => d,
        None => String::from_str("."),
    };
    let file = String::from_str(module_name).concat(".kes");
    join_path(dir.as_str(), file.as_str())
}


/// A use taken up: the path it was looked for at, and the canonical path of
/// the module found there.
pub struct ChildLink {
    pub candidate: Seq<char>,
    pub module: Seq<char>,
}

/// A module whose `use` list is being worked through: its canonical path,
/// the module names it uses, how many of them have been taken up, the path
/// it was reached through, and the uses already settled.
struct Frame {
    path: String,
    uses: Vec<String>,
    next: usize,
    origin: Ghost<Seq<char>>,
    children: Ghost<Seq<ChildLink>>,
}

/// A module in progress, as a mathematical value.
pub struct FrameView {
    pub path: Seq<char>,
    pub uses: Seq<Seq<char>>,
    pub next: int,
    pub origin: Seq<char>,
    pub children: Seq<ChildLink>,
}

/// The texts of a sequence of strings.
pub open spec fn texts(v: Seq<String>) -> Seq<Seq<char>> {
    v.map_values(|s: String| s@)
}

impl View for Frame {
    type V = FrameView;

    closed spec fn view(&self) -> FrameView {
        FrameView {
            path: self.path@,
            uses: texts(self.uses@),
            next: self.next as int,
            origin: self.origin@,
            children: self.children@,
        }
    }
}

/// A discovered module.
struct Record {
    path: String,
    origin: Ghost<Seq<char>>,
    uses: Ghost<Seq<Seq<char>>>,
    children: Ghost<Seq<ChildLink>>,
}

/// A discovered module as a mathematical value: its canonical path, the
/// path it was reached through, the module names it uses, and for each of
/// them the module it led to.
pub struct ModuleRecord {
    pub path: Seq<char>,
    pub origin: Seq<char>,
    pub uses: Seq<Seq<char>>,
    pub children: Seq<ChildLink>,
}

impl View for Record {
    type V = ModuleRecord;

    closed spec fn view(&self) -> ModuleRecord {
        ModuleRecord {
            path: self.path@,
            origin: self.origin@,
            uses: self.uses@,
            children: self.children@,
        }
    }
}

/// The outside work that discovery waits for next, or its end.
pub enum DiscoveryAction {
    /// Resolve this path to its canonical, absolute form.
    Canonicalize(String),
    /// Read and parse the file at this canonical path and report its `use` list.
    Load(String),
    /// Tell whether a file stands at `candidate`, where `use module;` points.
    CheckModuleFile { module: String, candidate: String },
    /// Discovery is over: every module was found, or this error stopped it.
    Finished(Result<(), KestrelcError>),
}

/// A discovery action as a mathematical value.
pub enum ActionView {
    Canonicalize(Seq<char>),
    Load(Seq<char>),
    CheckModuleFile(Seq<char>, Seq<char>),
    Finished(Result<(), ErrorView>),
}

impl View for DiscoveryAction {
    type V = ActionView;

    open spec fn view(&self) -> ActionView {
        match self {
            DiscoveryAction::Canonicalize(p) => ActionView::Canonicalize(p@),
            DiscoveryAction::Load(p) => ActionView::Load(p@),
            DiscoveryAction::CheckModuleFile { module, candidate } => ActionView::CheckModuleFile(
                module@,
                candidate@,
            ),
            DiscoveryAction::Finished(Ok(())) => ActionView::Finished(Ok(())),
            DiscoveryAction::Finished(Err(e)) => ActionView::Finished(Err(e@)),
        }
    }
}

/// Why a module file could not be loaded.
pub enum LoadFailure {
    /// The file could not be read; the text of the I/O error.
    Unreadable(String),
    /// The file was read but does not lex or parse.
    Invalid(KestrelcError),
}

/// The outcome of the outside work that discovery asked for.
pub enum DiscoveryEvent {
    /// The canonical path, or the text of the I/O error.
    Canonicalized(Result<String, String>),
    /// The module names that the loaded file uses, in order, or why it failed.
    Loaded(Result<Vec<String>, LoadFailure>),
    /// Whether a file stands at the candidate path.
    ModuleFileChecked(bool),
}

/// The state of a module discovery as a mathematical value: the entry path;
/// the modules discovered so far, each recorded once all the modules it uses
/// were; the chain of modules in progress, outermost first; what comes
/// next; and, while a file is to be loaded, the path it was reached through.
pub struct DiscoveryView {
    pub entry: Seq<char>,
    pub records: Seq<ModuleRecord>,
    pub stack: Seq<FrameView>,
    pub action: ActionView,
    pub load_origin: Seq<char>,
}

/// Module discovery from an entry file, driven by the caller: it asks for
/// canonical paths, file contents and file existence through its action,
/// and is told the outcome through `step`.
///
/// The discovered modules are a `Vec` in the order they were completed, not
/// a map from path to module: no path occurs twice (`modules_distinct`), and
/// the order is what lets the contracts say that each use settled on a
/// module discovered before it. A map keyed by path text would give the
/// proofs nothing to go on, since vstd states no lookup law for string keys.
/// The parsed programs themselves stay with the caller, which loads each file
/// when asked to and keeps what it parsed.
pub struct ModuleDiscovery {
    entry: Ghost<Seq<char>>,
    discovered: Vec<Record>,
    stack: Vec<Frame>,
    action: DiscoveryAction,
    load_origin: Ghost<Seq<char>>,
}

impl View for ModuleDiscovery {
    type V = DiscoveryView;

    closed spec fn view(&self) -> DiscoveryView {
        DiscoveryView {
            entry: self.entry@,
            records: self.discovered@.map_values(|r: Record| r@),
            stack: self.stack@.map_values(|f: Frame| f@),
            action: self.action@,
            load_origin: self.load_origin@,
        }
    }
}

/// The canonical paths of the discovered modules, in order.
pub open spec fn record_paths(records: Seq<ModuleRecord>) -> Seq<Seq<char>> {
    records.map_values(|r: ModuleRecord| r.path)
}

/// The canonical paths of the modules in progress, outermost first.
pub open spec fn stack_paths(stack: Seq<FrameView>) -> Seq<Seq<char>> {
    stack.map_values(|f: FrameView| f.path)
}

/// Each path followed by an arrow: `a -> b -> `.
pub open spec fn arrow_chain(paths: Seq<Seq<char>>) -> Seq<char>
    decreases paths.len(),
{
    if paths.len() == 0 {
        Seq::empty()
    } else {
        arrow_chain(paths.drop_last()) + paths.last() + " -> "@
    }
}

/// "kestrelc: can't read '<path>': <error>"
pub open spec fn cant_read_message(path: Seq<char>, io_error: Seq<char>) -> Seq<char> {
    "kestrelc: can't read '"@ + path + "': "@ + io_error
}

/// "kestrelc: module '<name>' not found -- expected '<path>'"
pub open spec fn not_found_message(module: Seq<char>, expected: Seq<char>) -> Seq<char> {
    "kestrelc: module '"@ + module + "' not found -- expected '"@ + expected + "'"@
}

/// The cycle that reaching `canonical` again closes: the modules in progress
/// from its first appearance on, then `canonical` itself, joined by arrows.
pub open spec fn cycle_message(in_progress: Seq<Seq<char>>, canonical: Seq<char>) -> Seq<char> {
    "kestrelc: import cycle detected: "@ + arrow_chain(
        in_progress.skip(in_progress.index_of(canonical)),
    ) + canonical
}

/// The innermost module in progress with one more settled use.
pub open spec fn settle_top_use(stack: Seq<FrameView>, link: ChildLink) -> Seq<FrameView> {
    if stack.len() == 0 {
        stack
    } else {
        stack.update(
            stack.len() - 1,
            FrameView { children: stack.last().children.push(link), ..stack.last() },
        )
    }
}

/// After a module's `use` list advanced or a module finished: every module
/// in progress whose uses are all taken up is recorded as discovered,
/// innermost first, and settles the use of the module that led to it; then
/// the next use of the innermost remaining module is checked, or, when none
/// remains, discovery finishes.
pub open spec fn settle(v: DiscoveryView) -> DiscoveryView
    decreases v.stack.len(),
{
    if v.stack.len() == 0 {
        DiscoveryView { action: ActionView::Finished(Ok(())), ..v }
    } else {
        let top = v.stack.last();
        if top.next < top.uses.len() {
            let name = top.uses[top.next];
            DiscoveryView {
                stack: v.stack.update(v.stack.len() - 1, FrameView { next: top.next + 1, ..top }),
                action: ActionView::CheckModuleFile(name, module_file_path(top.path, name)),
                ..v
            }
        } else {
            let record = ModuleRecord {
                path: top.path,
                origin: top.origin,
                uses: top.uses,
                children: top.children,
            };
            settle(
                DiscoveryView {
                    records: v.records.push(record),
                    stack: settle_top_use(
                        v.stack.drop_last(),
                        ChildLink { candidate: top.origin, module: top.path },
                    ),
                    ..v
                },
            )
        }
    }
}

/// How discovery answers the outcome of the work it asked for. An outcome
/// that does not answer the current action leaves the discovery as it is.
pub open spec fn discovery_step(v: DiscoveryView, event: DiscoveryEvent) -> DiscoveryView {
    match (v.action, event) {
        (ActionView::Canonicalize(path), DiscoveryEvent::Canonicalized(Err(io))) => DiscoveryView {
            action: ActionView::Finished(Err(resolve_error(cant_read_message(path, io@)))),
            ..v
        },
        (ActionView::Canonicalize(path), DiscoveryEvent::Canonicalized(Ok(c))) => {
            if record_paths(v.records).contains(c@) {
                settle(
                    DiscoveryView {
                        stack: settle_top_use(v.stack, ChildLink { candidate: path, module: c@ }),
                        ..v
                    },
                )
            } else if stack_paths(v.stack).contains(c@) {
                DiscoveryView {
                    action: ActionView::Finished(
                        Err(resolve_error(cycle_message(stack_paths(v.stack), c@))),
                    ),
                    ..v
                }
            } else {
                DiscoveryView { action: ActionView::Load(c@), load_origin: path, ..v }
            }
        },
        (ActionView::Load(c), DiscoveryEvent::Loaded(Err(LoadFailure::Unreadable(io)))) => DiscoveryView {
            action: ActionView::Finished(Err(resolve_error(cant_read_message(c, io@)))),
            ..v
        },
        (ActionView::Load(_), DiscoveryEvent::Loaded(Err(LoadFailure::Invalid(e)))) => DiscoveryView {
            action: ActionView::Finished(Err(e@)),
            ..v
        },
        (ActionView::Load(c), DiscoveryEvent::Loaded(Ok(uses))) => settle(
            DiscoveryView {
                stack: v.stack.push(
                    FrameView {
                        path: c,
                        uses: texts(uses@),
                        next: 0,
                        origin: v.load_origin,
                        children: Seq::empty(),
                    },
                ),
                ..v
            },
        ),
        (ActionView::CheckModuleFile(_, candidate), DiscoveryEvent::ModuleFileChecked(true)) => DiscoveryView {
            action: ActionView::Canonicalize(candidate),
            ..v
        },
        (
            ActionView::CheckModuleFile(module, candidate),
            DiscoveryEvent::ModuleFileChecked(false),
        ) => DiscoveryView {
            action: ActionView::Finished(
                Err(resolve_error(not_found_message(module, candidate))),
            ),
            ..v
        },
        _ => v,
    }
}

/// Each settled use of a module was looked for next to it under its name,
/// and led to a module in `known`.
pub open spec fn links_ok(
    importer: Seq<char>,
    uses: Seq<Seq<char>>,
    links: Seq<ChildLink>,
    known: Seq<Seq<char>>,
) -> bool {
    &&& links.len() <= uses.len()
    &&& forall|j: int|
        0 <= j < links.len() ==> (#[trigger] links[j]).candidate == module_file_path(
            importer,
            uses[j],
        ) && known.contains(links[j].module)
}

/// Every discovered module has all its uses settled, each on a module
/// discovered before it.
pub open spec fn records_ok(records: Seq<ModuleRecord>) -> bool {
    forall|i: int|
        0 <= i < records.len() ==> {
            &&& (#[trigger] records[i]).children.len() == records[i].uses.len()
            &&& links_ok(
                records[i].path,
                records[i].uses,
                records[i].children,
                record_paths(records.take(i)),
            )
        }
}

/// The module in progress at `k` waits for its latest use, which is the
/// module in progress just inside it.
pub open spec fn parent_waits(stack: Seq<FrameView>, k: int) -> bool {
    &&& stack[k].children.len() + 1 == stack[k].next
    &&& stack[k + 1].origin == module_file_path(stack[k].path, stack[k].uses[stack[k].next - 1])
}

/// The innermost module in progress waits for its latest use.
pub open spec fn top_waits(stack: Seq<FrameView>) -> bool {
    &&& stack.len() > 0
    &&& 1 <= stack.last().next
    &&& stack.last().children.len() + 1 == stack.last().next
}

/// The path at which the innermost module's latest use is looked for.
pub open spec fn latest_use_path(stack: Seq<FrameView>) -> Seq<char> {
    module_file_path(stack.last().path, stack.last().uses[stack.last().next - 1])
}

/// The modules in progress: each one's settled uses led to discovered
/// modules, each use list is taken up no further than its end, each one but
/// the innermost waits for the next one inside it, and the outermost was
/// reached through the entry path.
pub open spec fn frames_ok(v: DiscoveryView) -> bool {
    &&& forall|k: int|
        0 <= k < v.stack.len() ==> {
            &&& links_ok(
                (#[trigger] v.stack[k]).path,
                v.stack[k].uses,
                v.stack[k].children,
                record_paths(v.records),
            )
            &&& v.stack[k].children.len() <= v.stack[k].next <= v.stack[k].uses.len()
        }
    &&& forall|k: int| 0 <= k < v.stack.len() - 1 ==> #[trigger] parent_waits(v.stack, k)
    &&& v.stack.len() > 0 ==> v.stack[0].origin == v.entry
}

/// Each discovered module once, each module in progress once and not also
/// discovered.
pub open spec fn modules_distinct(discovered: Seq<Seq<char>>, stack: Seq<FrameView>) -> bool {
    &&& discovered.no_duplicates()
    &&& stack_paths(stack).no_duplicates()
    &&& forall|j: int| 0 <= j < stack.len() ==> !discovered.contains(#[trigger] stack[j].path)
}

/// What holds of the modules whatever the action.
pub open spec fn modules_wf(v: DiscoveryView) -> bool {
    &&& modules_distinct(record_paths(v.records), v.stack)
    &&& records_ok(v.records)
    &&& frames_ok(v)
}

/// Some use among `links` led to the module at `path`.
pub open spec fn linked_from(links: Seq<ChildLink>, path: Seq<char>) -> bool {
    exists|l: int| 0 <= l < links.len() && links[l].module == path
}

/// The `i`-th discovered module was reached through a use: of a module
/// discovered after it, or of a module still in progress. The one exception
/// is the last discovered module when nothing is in progress: the entry's.
pub open spec fn discovered_module_reached(v: DiscoveryView, i: int) -> bool {
    ||| exists|j: int|
        i < j < v.records.len() && #[trigger] linked_from(v.records[j].children, v.records[i].path)
    ||| exists|k: int|
        0 <= k < v.stack.len() && #[trigger] linked_from(v.stack[k].children, v.records[i].path)
    ||| (i == v.records.len() - 1 && v.stack.len() == 0)
}

/// Every discovered module was reached through a use, but the entry's.
pub open spec fn records_reached(v: DiscoveryView) -> bool {
    forall|i: int| 0 <= i < v.records.len() ==> #[trigger] discovered_module_reached(v, i)
}

/// A well-formed discovery: `modules_wf`, every discovered module reached
/// through a use (`records_reached`), and an action that fits them. A file
/// is only ever loaded when it is neither discovered nor in progress.
pub open spec fn discovery_wf(v: DiscoveryView) -> bool {
    &&& modules_wf(v)
    &&& records_reached(v)
    &&& match v.action {
        ActionView::Canonicalize(p) => if v.stack.len() == 0 {
            v.records.len() == 0 && p == v.entry
        } else {
            top_waits(v.stack) && p == latest_use_path(v.stack)
        },
        ActionView::Load(c) => {
            &&& !record_paths(v.records).contains(c)
            &&& !stack_paths(v.stack).contains(c)
            &&& if v.stack.len() == 0 {
                v.records.len() == 0 && v.load_origin == v.entry
            } else {
                top_waits(v.stack) && v.load_origin == latest_use_path(v.stack)
            }
        },
        ActionView::CheckModuleFile(m, candidate) => {
            &&& top_waits(v.stack)
            &&& m == v.stack.last().uses[v.stack.last().next - 1]
            &&& candidate == module_file_path(v.stack.last().path, m)
        },
        ActionView::Finished(Ok(())) => {
            &&& v.stack.len() == 0
            &&& v.records.len() > 0
            &&& v.records.last().origin == v.entry
        },
        ActionView::Finished(Err(_)) => true,
    }
}

/// Ready to settle: the modules are well formed, the innermost module in
/// progress has no use in flight, and with none in progress the entry's
/// module is the last discovered.
pub open spec fn settle_ready(v: DiscoveryView) -> bool {
    &&& modules_wf(v)
    &&& v.stack.len() > 0 ==> v.stack.last().children.len() == v.stack.last().next
    &&& v.stack.len() == 0 ==> v.records.len() > 0 && v.records.last().origin == v.entry
}

proof fn lemma_links_grow(
    importer: Seq<char>,
    uses: Seq<Seq<char>>,
    links: Seq<ChildLink>,
    known: Seq<Seq<char>>,
    known2: Seq<Seq<char>>,
)
    requires
        links_ok(importer, uses, links, known),
        forall|x: Seq<char>| known.contains(x) ==> known2.contains(x),
    ensures
        links_ok(importer, uses, links, known2),
{
    assert forall|j: int| 0 <= j < links.len() implies (#[trigger] links[j]).candidate
        == module_file_path(importer, uses[j]) && known2.contains(links[j].module) by {
        assert(known.contains(links[j].module));
    }
}

proof fn lemma_record_paths_push(records: Seq<ModuleRecord>, r: ModuleRecord)
    ensures
        record_paths(records.push(r)) == record_paths(records).push(r.path),
        forall|i: int|
            0 <= i <= records.len() ==> #[trigger] record_paths(records.push(r).take(i))
                == record_paths(records.take(i)),
        record_paths(records.push(r).take(records.len() as int)) == record_paths(records),
        forall|x: Seq<char>| record_paths(records).contains(x) ==> record_paths(records.push(r)).contains(x),
{
    assert(record_paths(records.push(r)) =~= record_paths(records).push(r.path));
    assert forall|i: int| 0 <= i <= records.len() implies #[trigger] record_paths(
        records.push(r).take(i),
    ) == record_paths(records.take(i)) by {
        assert(records.push(r).take(i) =~= records.take(i));
    }
    assert(records.take(records.len() as int) =~= records);
    assert forall|x: Seq<char>| record_paths(records).contains(x) implies record_paths(
        records.push(r),
    ).contains(x) by {
        let k = choose|k: int| 0 <= k < record_paths(records).len() && record_paths(records)[k] == x;
        assert(record_paths(records.push(r))[k] == x);
    }
}

proof fn lemma_records_push(records: Seq<ModuleRecord>, r: ModuleRecord)
    requires
        records_ok(records),
        r.children.len() == r.uses.len(),
        links_ok(r.path, r.uses, r.children, record_paths(records)),
    ensures
        records_ok(records.push(r)),
{
    lemma_record_paths_push(records, r);
    let rs = records.push(r);
    assert forall|i: int| 0 <= i < rs.len() implies {
        &&& (#[trigger] rs[i]).children.len() == rs[i].uses.len()
        &&& links_ok(rs[i].path, rs[i].uses, rs[i].children, record_paths(rs.take(i)))
    } by {
        if i < records.len() {
            assert(rs[i] == records[i]);
            assert(record_paths(rs.take(i)) == record_paths(records.take(i)));
        } else {
            assert(rs[i] == r);
            assert(record_paths(rs.take(i)) == record_paths(records));
        }
    }
}

/// Modules in progress that only gain settled uses, with the same modules
/// discovered, keep every discovered module reached.
proof fn lemma_reached_frames_grow(v: DiscoveryView, v2: DiscoveryView)
    requires
        records_reached(v),
        v2.records == v.records,
        v2.stack.len() >= v.stack.len(),
        forall|k: int, l: int|
            0 <= k < v.stack.len() && 0 <= l < v.stack[k].children.len() ==> l
                < v2.stack[k].children.len() && v2.stack[k].children[l] == v.stack[k].children[l],
        v.stack.len() == 0 && v.records.len() > 0 ==> v2.stack.len() == 0,
    ensures
        records_reached(v2),
{
    assert forall|i: int| 0 <= i < v2.records.len() implies #[trigger] discovered_module_reached(
        v2,
        i,
    ) by {
        assert(discovered_module_reached(v, i));
        let p = v.records[i].path;
        if exists|j: int| i < j < v.records.len() && #[trigger] linked_from(v.records[j].children, p) {
            let j = choose|j: int| i < j < v.records.len() && #[trigger] linked_from(v.records[j].children, p);
            assert(linked_from(v2.records[j].children, v2.records[i].path));
        } else if exists|k: int| 0 <= k < v.stack.len() && #[trigger] linked_from(v.stack[k].children, p) {
            let k = choose|k: int| 0 <= k < v.stack.len() && #[trigger] linked_from(v.stack[k].children, p);
            let l = choose|l: int| 0 <= l < v.stack[k].children.len() && v.stack[k].children[l].module == p;
            assert(v2.stack[k].children[l] == v.stack[k].children[l]);
            assert(linked_from(v2.stack[k].children, v2.records[i].path));
        }
    }
}

/// Recording the innermost module in progress as discovered keeps every
/// discovered module reached: the new one through the use of the module
/// that led to it, or as the entry's when none remains in progress.
proof fn lemma_reached_pop(v: DiscoveryView)
    requires
        records_reached(v),
        v.stack.len() > 0,
    ensures
        records_reached(
            DiscoveryView {
                records: v.records.push(
                    ModuleRecord {
                        path: v.stack.last().path,
                        origin: v.stack.last().origin,
                        uses: v.stack.last().uses,
                        children: v.stack.last().children,
                    },
                ),
                stack: settle_top_use(
                    v.stack.drop_last(),
                    ChildLink { candidate: v.stack.last().origin, module: v.stack.last().path },
                ),
                ..v
            },
        ),
{
    let top = v.stack.last();
    let n = v.stack.len() - 1;
    let rec = ModuleRecord { path: top.path, origin: top.origin, uses: top.uses, children: top.children };
    let link = ChildLink { candidate: top.origin, module: top.path };
    let rest2 = settle_top_use(v.stack.drop_last(), link);
    let v2 = DiscoveryView { records: v.records.push(rec), stack: rest2, ..v };
    let m = v.records.len() as int;
    assert forall|i: int| 0 <= i < v2.records.len() implies #[trigger] discovered_module_reached(
        v2,
        i,
    ) by {
        if i < m {
            assert(discovered_module_reached(v, i));
            let p = v.records[i].path;
            assert(v2.records[i] == v.records[i]);
            if exists|j: int| i < j < v.records.len() && #[trigger] linked_from(v.records[j].children, p) {
                let j = choose|j: int| i < j < v.records.len() && #[trigger] linked_from(v.records[j].children, p);
                assert(v2.records[j] == v.records[j]);
                assert(linked_from(v2.records[j].children, v2.records[i].path));
            } else {
                let k = choose|k: int| 0 <= k < v.stack.len() && #[trigger] linked_from(v.stack[k].children, p);
                let l = choose|l: int| 0 <= l < v.stack[k].children.len() && v.stack[k].children[l].module == p;
                if k == n {
                    assert(v2.records[m] == rec);
                    assert(rec.children[l].module == p);
                    assert(linked_from(v2.records[m].children, v2.records[i].path));
                } else {
                    assert(v2.stack[k].children[l] == v.stack[k].children[l]);
                    assert(linked_from(v2.stack[k].children, v2.records[i].path));
                }
            }
        } else {
            assert(v2.records[i] == rec);
            if n > 0 {
                let ch = v2.stack[n - 1].children;
                assert(ch == v.stack[n - 1].children.push(link));
                assert(ch[ch.len() - 1].module == rec.path);
                assert(linked_from(v2.stack[n - 1].children, v2.records[i].path));
            }
        }
    }
}

proof fn lemma_settle_wf(v: DiscoveryView)
    requires
        settle_ready(v),
        records_reached(v),
    ensures
        discovery_wf(settle(v)),
        v.records.is_prefix_of(settle(v).records),
        settle(v).entry == v.entry,
    decreases v.stack.len(),
{
    let stack = v.stack;
    if stack.len() == 0 {
        lemma_reached_frames_grow(v, settle(v));
    }
    if stack.len() > 0 {
        let top = stack.last();
        let n = stack.len() - 1;
        if top.next < top.uses.len() {
            let s2 = stack.update(n, FrameView { next: top.next + 1, ..top });
            let v2 = DiscoveryView {
                stack: s2,
                action: ActionView::CheckModuleFile(top.uses[top.next], module_file_path(top.path, top.uses[top.next])),
                ..v
            };
            assert(stack_paths(s2) =~= stack_paths(stack));
            assert forall|j: int| 0 <= j < s2.len() implies !record_paths(v.records).contains(
                #[trigger] s2[j].path,
            ) by {
                assert(s2[j].path == stack[j].path);
            }
            assert forall|k: int| 0 <= k < s2.len() implies {
                &&& links_ok(
                    (#[trigger] s2[k]).path,
                    s2[k].uses,
                    s2[k].children,
                    record_paths(v.records),
                )
                &&& s2[k].children.len() <= s2[k].next <= s2[k].uses.len()
            } by {
                assert(links_ok(stack[k].path, stack[k].uses, stack[k].children, record_paths(v.records)));
            }
            assert forall|k: int| 0 <= k < s2.len() - 1 implies #[trigger] parent_waits(s2, k) by {
                assert(parent_waits(stack, k));
                assert(s2[k] == stack[k]);
            }
            lemma_reached_frames_grow(v, v2);
            assert(settle(v) == v2);
        } else {
            let rec = ModuleRecord {
                path: top.path,
                origin: top.origin,
                uses: top.uses,
                children: top.children,
            };
            let link = ChildLink { candidate: top.origin, module: top.path };
            let rest = stack.drop_last();
            let rest2 = settle_top_use(rest, link);
            let records2 = v.records.push(rec);
            let v2 = DiscoveryView { records: records2, stack: rest2, ..v };
            lemma_record_paths_push(v.records, rec);
            assert(links_ok(top.path, top.uses, top.children, record_paths(v.records)));
            lemma_records_push(v.records, rec);
            // distinctness
            let d = record_paths(v.records);
            let d2 = record_paths(records2);
            assert(stack_paths(rest2) =~= stack_paths(stack).drop_last());
            assert(!d.contains(stack[n].path));
            assert forall|i: int, j: int| 0 <= i < d2.len() && 0 <= j < d2.len() && i != j implies d2[i]
                != d2[j] by {
                if i == d.len() {
                    assert(d2[j] == d[j]);
                } else if j == d.len() {
                    assert(d2[i] == d[i]);
                } else {
                    assert(d2[i] == d[i] && d2[j] == d[j]);
                }
            }
            assert forall|j: int| 0 <= j < rest2.len() implies !d2.contains(#[trigger] rest2[j].path) by {
                assert(rest2[j].path == stack[j].path);
                assert(stack_paths(stack)[j] == stack[j].path);
                assert(stack_paths(stack)[n] == top.path);
                assert(!d.contains(stack[j].path));
                if d2.contains(rest2[j].path) {
                    let k = choose|k: int| 0 <= k < d2.len() && d2[k] == rest2[j].path;
                    if k < d.len() {
                        assert(d[k] == d2[k]);
                    }
                }
            }
            // frames
            assert forall|k: int| 0 <= k < rest2.len() implies {
                &&& links_ok(
                    (#[trigger] rest2[k]).path,
                    rest2[k].uses,
                    rest2[k].children,
                    d2,
                )
                &&& rest2[k].children.len() <= rest2[k].next <= rest2[k].uses.len()
            } by {
                assert(links_ok(stack[k].path, stack[k].uses, stack[k].children, d));
                lemma_links_grow(stack[k].path, stack[k].uses, stack[k].children, d, d2);
                if k == rest2.len() - 1 {
                    assert(parent_waits(stack, k));
                    let ch = stack[k].children.push(link);
                    assert(rest2[k].children == ch);
                    assert forall|j: int| 0 <= j < ch.len() implies (#[trigger] ch[j]).candidate
                        == module_file_path(stack[k].path, stack[k].uses[j]) && d2.contains(ch[j].module) by {
                        if j < stack[k].children.len() {
                            assert(ch[j] == stack[k].children[j]);
                        } else {
                            assert(d2[d.len() as int] == top.path);
                        }
                    }
                } else {
                    assert(rest2[k] == stack[k]);
                }
            }
            assert forall|k: int| 0 <= k < rest2.len() - 1 implies #[trigger] parent_waits(rest2, k) by {
                assert(parent_waits(stack, k));
                assert(rest2[k] == stack[k]);
                assert(rest2[k + 1].origin == stack[k + 1].origin);
            }
            if rest2.len() > 0 {
                assert(parent_waits(stack, n - 1));
                assert(rest2[0].origin == stack[0].origin);
            }
            assert(settle_ready(v2));
            lemma_reached_pop(v);
            lemma_settle_wf(v2);
            assert(v.records.is_prefix_of(records2));
        }
    }
}

/// Starting work on a freshly loaded module keeps the discovery ready to
/// settle.
proof fn lemma_push_frame(v: DiscoveryView, c: Seq<char>, uses: Seq<Seq<char>>)
    requires
        discovery_wf(v),
        v.action == ActionView::Load(c),
    ensures
        settle_ready(
            DiscoveryView {
                stack: v.stack.push(
                    FrameView { path: c, uses, next: 0, origin: v.load_origin, children: Seq::empty() },
                ),
                ..v
            },
        ),
        records_reached(
            DiscoveryView {
                stack: v.stack.push(
                    FrameView { path: c, uses, next: 0, origin: v.load_origin, children: Seq::empty() },
                ),
                ..v
            },
        ),
{
    let f = FrameView { path: c, uses, next: 0, origin: v.load_origin, children: Seq::empty() };
    let pushed = v.stack.push(f);
    let v2 = DiscoveryView { stack: pushed, ..v };
    let d = record_paths(v.records);
    assert(stack_paths(pushed) =~= stack_paths(v.stack).push(c));
    assert forall|i: int, j: int|
        0 <= i < pushed.len() && 0 <= j < pushed.len() && i != j implies stack_paths(pushed)[i]
        != stack_paths(pushed)[j] by {
        if i < v.stack.len() {
            assert(stack_paths(pushed)[i] == stack_paths(v.stack)[i]);
        }
        if j < v.stack.len() {
            assert(stack_paths(pushed)[j] == stack_paths(v.stack)[j]);
        }
    }
    assert forall|j: int| 0 <= j < pushed.len() implies !d.contains(#[trigger] pushed[j].path) by {
        if j < v.stack.len() {
            assert(pushed[j] == v.stack[j]);
        }
    }
    assert forall|k: int| 0 <= k < pushed.len() implies {
        &&& links_ok((#[trigger] pushed[k]).path, pushed[k].uses, pushed[k].children, d)
        &&& pushed[k].children.len() <= pushed[k].next <= pushed[k].uses.len()
    } by {
        if k < v.stack.len() {
            assert(pushed[k] == v.stack[k]);
        }
    }
    assert forall|k: int| 0 <= k < pushed.len() - 1 implies #[trigger] parent_waits(pushed, k) by {
        assert(pushed[k] == v.stack[k]);
        if k < v.stack.len() - 1 {
            assert(parent_waits(v.stack, k));
            assert(pushed[k + 1] == v.stack[k + 1]);
        }
    }
    if v.stack.len() > 0 {
        assert(pushed[0] == v.stack[0]);
    }
    assert(settle_ready(v2));
    assert forall|k: int, l: int|
        0 <= k < v.stack.len() && 0 <= l < v.stack[k].children.len() implies l
        < v2.stack[k].children.len() && v2.stack[k].children[l] == v.stack[k].children[l] by {
        assert(pushed[k] == v.stack[k]);
    }
    lemma_reached_frames_grow(v, v2);
}

/// Settling a use of the innermost module onto an already discovered module
/// keeps the discovery ready to settle.
proof fn lemma_settle_repeat(v: DiscoveryView, path: Seq<char>, c: Seq<char>)
    requires
        discovery_wf(v),
        v.action == ActionView::Canonicalize(path),
        record_paths(v.records).contains(c),
    ensures
        v.stack.len() > 0,
        settle_ready(
            DiscoveryView {
                stack: settle_top_use(v.stack, ChildLink { candidate: path, module: c }),
                ..v
            },
        ),
        records_reached(
            DiscoveryView {
                stack: settle_top_use(v.stack, ChildLink { candidate: path, module: c }),
                ..v
            },
        ),
{
    let link = ChildLink { candidate: path, module: c };
    let s2 = settle_top_use(v.stack, link);
    let v2 = DiscoveryView { stack: s2, ..v };
    let d = record_paths(v.records);
    let n = v.stack.len() - 1;
    assert(stack_paths(s2) =~= stack_paths(v.stack));
    assert forall|j: int| 0 <= j < s2.len() implies !d.contains(#[trigger] s2[j].path) by {
        assert(s2[j].path == v.stack[j].path);
    }
    assert forall|k: int| 0 <= k < s2.len() implies {
        &&& links_ok((#[trigger] s2[k]).path, s2[k].uses, s2[k].children, d)
        &&& s2[k].children.len() <= s2[k].next <= s2[k].uses.len()
    } by {
        assert(links_ok(v.stack[k].path, v.stack[k].uses, v.stack[k].children, d));
        if k == n {
            let ch = v.stack[k].children.push(link);
            assert forall|j: int| 0 <= j < ch.len() implies (#[trigger] ch[j]).candidate
                == module_file_path(v.stack[k].path, v.stack[k].uses[j]) && d.contains(ch[j].module) by {
                if j < v.stack[k].children.len() {
                    assert(ch[j] == v.stack[k].children[j]);
                }
            }
        } else {
            assert(s2[k] == v.stack[k]);
        }
    }
    assert forall|k: int| 0 <= k < s2.len() - 1 implies #[trigger] parent_waits(s2, k) by {
        assert(parent_waits(v.stack, k));
        assert(s2[k] == v.stack[k]);
        assert(s2[k + 1].origin == v.stack[k + 1].origin);
    }
    assert(s2[0].origin == v.stack[0].origin);
    assert(settle_ready(v2));
    assert forall|k: int, l: int|
        0 <= k < v.stack.len() && 0 <= l < v.stack[k].children.len() implies l
        < v2.stack[k].children.len() && v2.stack[k].children[l] == v.stack[k].children[l] by {
        if k == n {
            assert(v2.stack[k].children == v.stack[k].children.push(link));
        } else {
            assert(s2[k] == v.stack[k]);
        }
    }
    lemma_reached_frames_grow(v, v2);
}

/// Settling never asks to load a file and never fails.
proof fn lemma_settle_action(v: DiscoveryView)
    ensures
        settle(v).action is Finished ==> settle(v).action == ActionView::Finished(Ok(())),
        settle(v).action is Finished || settle(v).action is CheckModuleFile,
    decreases v.stack.len(),
{
    if v.stack.len() > 0 && v.stack.last().next >= v.stack.last().uses.len() {
        let top = v.stack.last();
        let rec = ModuleRecord { path: top.path, origin: top.origin, uses: top.uses, children: top.children };
        lemma_settle_action(
            DiscoveryView {
                records: v.records.push(rec),
                stack: settle_top_use(
                    v.stack.drop_last(),
                    ChildLink { candidate: top.origin, module: top.path },
                ),
                ..v
            },
        );
    }
}

/// Every step keeps a discovery well formed (see `discovery_wf`), and a
/// module once discovered stays discovered, in its place.
pub proof fn law_step_keeps_wf(v: DiscoveryView, event: DiscoveryEvent)
    requires
        discovery_wf(v),
    ensures
        discovery_wf(discovery_step(v, event)),
        v.records.is_prefix_of(discovery_step(v, event).records),
        discovery_step(v, event).entry == v.entry,
{
    let w = discovery_step(v, event);
    if w.records == v.records && w.stack == v.stack {
        lemma_reached_frames_grow(v, w);
    }
    match (v.action, event) {
        (ActionView::Canonicalize(path), DiscoveryEvent::Canonicalized(Ok(c))) => {
            if record_paths(v.records).contains(c@) {
                lemma_settle_repeat(v, path, c@);
                lemma_settle_wf(
                    DiscoveryView {
                        stack: settle_top_use(v.stack, ChildLink { candidate: path, module: c@ }),
                        ..v
                    },
                );
            }
        },
        (ActionView::Load(c), DiscoveryEvent::Loaded(Ok(uses))) => {
            lemma_push_frame(v, c, texts(uses@));
            lemma_settle_wf(
                DiscoveryView {
                    stack: v.stack.push(
                        FrameView {
                            path: c,
                            uses: texts(uses@),
                            next: 0,
                            origin: v.load_origin,
                            children: Seq::empty(),
                        },
                    ),
                    ..v
                },
            );
        },
        _ => {},
    }
}

/// A module is discovered at most once, however often it is imported.
pub proof fn law_discovered_once(v: DiscoveryView)
    requires
        discovery_wf(v),
    ensures
        record_paths(v.records).no_duplicates(),
{
}

/// A file is loaded (read and parsed) only when it is neither discovered nor
/// in progress, so no module is parsed twice.
pub proof fn law_load_only_new_modules(v: DiscoveryView, event: DiscoveryEvent, c: Seq<char>)
    requires
        discovery_wf(v),
        discovery_step(v, event).action == ActionView::Load(c),
    ensures
        !record_paths(discovery_step(v, event).records).contains(c),
        !stack_paths(discovery_step(v, event).stack).contains(c),
{
    law_step_keeps_wf(v, event);
}

/// The module that the `j`-th use of the `i`-th discovered module led to
/// was discovered before it.
pub open spec fn used_module_discovered_before(records: Seq<ModuleRecord>, i: int, j: int) -> bool {
    exists|k: int| 0 <= k < i && records[k].path == records[i].children[j].module
}

proof fn lemma_child_discovered_before(records: Seq<ModuleRecord>, i: int, j: int)
    requires
        records_ok(records),
        0 <= i < records.len(),
        0 <= j < records[i].uses.len(),
    ensures
        used_module_discovered_before(records, i, j),
{
    let r = records[i];
    assert(links_ok(r.path, r.uses, r.children, record_paths(records.take(i))));
    assert(r.children[j] == r.children[j]);
    let known = record_paths(records.take(i));
    assert(known.contains(r.children[j].module));
    let k = choose|k: int| 0 <= k < known.len() && known[k] == r.children[j].module;
    assert(records.take(i)[k] == records[k]);
    assert(known[k] == records.take(i)[k].path);
    assert(records[k].path == r.children[j].module);
}

/// When discovery finishes without error, the entry's module was discovered
/// last, and every discovered module had each of its uses looked for next
/// to it under the use's name and settled on a module discovered before it:
/// every module used, directly or transitively, was discovered.
pub proof fn law_finished_discovery_is_complete(v: DiscoveryView)
    requires
        discovery_wf(v),
        v.action == ActionView::Finished(Ok(())),
    ensures
        v.stack.len() == 0,
        v.records.len() > 0,
        v.records.last().origin == v.entry,
        forall|i: int|
            0 <= i < v.records.len() ==> (#[trigger] v.records[i]).children.len()
                == v.records[i].uses.len(),
        forall|i: int, j: int|
            0 <= i < v.records.len() && 0 <= j < v.records[i].uses.len() ==> (
            #[trigger] v.records[i].children[j]).candidate == module_file_path(
                v.records[i].path,
                v.records[i].uses[j],
            ),
        forall|i: int, j: int|
            0 <= i < v.records.len() && 0 <= j < v.records[i].uses.len() ==> #[trigger] used_module_discovered_before(v.records, i, j),
{
    assert forall|i: int, j: int|
        0 <= i < v.records.len() && 0 <= j < v.records[i].uses.len() implies #[trigger] used_module_discovered_before(v.records, i, j) by {
        lemma_child_discovered_before(v.records, i, j);
    }
    assert forall|i: int, j: int|
        0 <= i < v.records.len() && 0 <= j < v.records[i].uses.len() implies (
        #[trigger] v.records[i].children[j]).candidate == module_file_path(
        v.records[i].path,
        v.records[i].uses[j],
    ) by {
        let r = v.records[i];
        assert(links_ok(r.path, r.uses, r.children, record_paths(v.records.take(i))));
        assert(r.children[j] == r.children[j]);
    }
}

/// Some module discovered after the `i`-th one has a use that led to it.
pub open spec fn used_by_later_module(records: Seq<ModuleRecord>, i: int) -> bool {
    exists|j: int| i < j < records.len() && #[trigger] linked_from(records[j].children, records[i].path)
}

/// When discovery finishes without error, every discovered module but the
/// entry's (the last) was reached through a use of a module discovered
/// after it: nothing is discovered that the entry does not use, directly or
/// transitively.
pub proof fn law_finished_discovery_is_reachable(v: DiscoveryView)
    requires
        discovery_wf(v),
        v.action == ActionView::Finished(Ok(())),
    ensures
        forall|i: int| 0 <= i < v.records.len() - 1 ==> #[trigger] used_by_later_module(v.records, i),
{
    assert forall|i: int| 0 <= i < v.records.len() - 1 implies #[trigger] used_by_later_module(
        v.records,
        i,
    ) by {
        assert(discovered_module_reached(v, i));
    }
}

/// How many modules are discovered or in progress.
pub open spec fn module_count(v: DiscoveryView) -> nat {
    v.records.len() + v.stack.len()
}

/// Settling moves modules from in progress to discovered, one for one.
proof fn lemma_settle_count(v: DiscoveryView)
    ensures
        module_count(settle(v)) == module_count(v),
    decreases v.stack.len(),
{
    if v.stack.len() > 0 && v.stack.last().next >= v.stack.last().uses.len() {
        let top = v.stack.last();
        let rec = ModuleRecord { path: top.path, origin: top.origin, uses: top.uses, children: top.children };
        lemma_settle_count(
            DiscoveryView {
                records: v.records.push(rec),
                stack: settle_top_use(
                    v.stack.drop_last(),
                    ChildLink { candidate: top.origin, module: top.path },
                ),
                ..v
            },
        );
    }
}

/// Only a successful load adds a module, exactly one; no step removes one.
pub proof fn law_step_module_count(v: DiscoveryView, event: DiscoveryEvent)
    ensures
        module_count(discovery_step(v, event)) == module_count(v) + (if v.action is Load
            && event matches DiscoveryEvent::Loaded(Ok(_)) {
            1int
        } else {
            0int
        }),
{
    match (v.action, event) {
        (ActionView::Canonicalize(path), DiscoveryEvent::Canonicalized(Ok(c))) => {
            lemma_settle_count(
                DiscoveryView {
                    stack: settle_top_use(v.stack, ChildLink { candidate: path, module: c@ }),
                    ..v
                },
            );
        },
        (ActionView::Load(c), DiscoveryEvent::Loaded(Ok(uses))) => {
            lemma_settle_count(
                DiscoveryView {
                    stack: v.stack.push(
                        FrameView {
                            path: c,
                            uses: texts(uses@),
                            next: 0,
                            origin: v.load_origin,
                            children: Seq::empty(),
                        },
                    ),
                    ..v
                },
            );
        },
        _ => {},
    }
}

/// The work a module in progress still owes: two for each use not yet taken
/// up, one for a use taken up but not yet settled.
pub open spec fn frame_work(f: FrameView) -> int {
    2 * (f.uses.len() - f.next) + (f.next - f.children.len())
}

/// The work the modules in progress still owe, once their uses are known.
pub open spec fn pending_work(stack: Seq<FrameView>) -> int
    decreases stack.len(),
{
    if stack.len() == 0 {
        0
    } else {
        pending_work(stack.drop_last()) + frame_work(stack.last())
    }
}

/// Checking a module file comes before resolving its path, which comes
/// before loading it.
pub open spec fn action_rank(a: ActionView) -> int {
    match a {
        ActionView::CheckModuleFile(_, _) => 2,
        ActionView::Canonicalize(_) => 1,
        _ => 0,
    }
}

/// The event is the outcome of the work that the action asked for.
pub open spec fn answers(a: ActionView, event: DiscoveryEvent) -> bool {
    match (a, event) {
        (ActionView::Canonicalize(_), DiscoveryEvent::Canonicalized(_)) => true,
        (ActionView::Load(_), DiscoveryEvent::Loaded(_)) => true,
        (ActionView::CheckModuleFile(_, _), DiscoveryEvent::ModuleFileChecked(_)) => true,
        _ => false,
    }
}

/// Use counts of modules in progress: settled uses are no more than the
/// uses taken up, which are no more than the uses; every module but the
/// innermost has exactly one use in flight.
spec fn counts_ok(stack: Seq<FrameView>) -> bool {
    &&& forall|k: int|
        0 <= k < stack.len() ==> (#[trigger] stack[k]).children.len() <= stack[k].next
            <= stack[k].uses.len()
    &&& forall|k: int|
        0 <= k < stack.len() - 1 ==> (#[trigger] stack[k]).children.len() + 1 == stack[k].next
}

proof fn lemma_pending_nonneg(stack: Seq<FrameView>)
    requires
        forall|k: int|
            0 <= k < stack.len() ==> (#[trigger] stack[k]).children.len() <= stack[k].next
                <= stack[k].uses.len(),
    ensures
        pending_work(stack) >= 0,
    decreases stack.len(),
{
    if stack.len() > 0 {
        let rest = stack.drop_last();
        assert forall|k: int| 0 <= k < rest.len() implies (#[trigger] rest[k]).children.len()
            <= rest[k].next <= rest[k].uses.len() by {
            assert(rest[k] == stack[k]);
        }
        lemma_pending_nonneg(rest);
        assert(stack.last() == stack[stack.len() - 1]);
    }
}

/// Replacing the innermost module in progress changes the pending work by
/// its own work alone.
proof fn lemma_pending_update_last(stack: Seq<FrameView>, f: FrameView)
    requires
        stack.len() > 0,
    ensures
        pending_work(stack.update(stack.len() - 1, f)) == pending_work(stack) - frame_work(
            stack.last(),
        ) + frame_work(f),
{
    let s2 = stack.update(stack.len() - 1, f);
    assert(s2.drop_last() =~= stack.drop_last());
}

/// Settling never adds pending work.
proof fn lemma_settle_pending(v: DiscoveryView)
    requires
        counts_ok(v.stack),
        v.stack.len() > 0 ==> v.stack.last().children.len() == v.stack.last().next,
    ensures
        pending_work(settle(v).stack) <= pending_work(v.stack),
    decreases v.stack.len(),
{
    let stack = v.stack;
    if stack.len() > 0 {
        let top = stack.last();
        let n = stack.len() - 1;
        assert(top == stack[n]);
        if top.next < top.uses.len() {
            lemma_pending_update_last(stack, FrameView { next: top.next + 1, ..top });
        } else {
            let rec = ModuleRecord { path: top.path, origin: top.origin, uses: top.uses, children: top.children };
            let link = ChildLink { candidate: top.origin, module: top.path };
            let rest = stack.drop_last();
            let rest2 = settle_top_use(rest, link);
            let v2 = DiscoveryView { records: v.records.push(rec), stack: rest2, ..v };
            assert(frame_work(top) == 0);
            assert(pending_work(stack) == pending_work(rest));
            if rest.len() > 0 {
                let p = rest.last();
                assert(p == stack[n - 1]);
                lemma_pending_update_last(rest, FrameView { children: p.children.push(link), ..p });
                assert(pending_work(rest2) == pending_work(rest) - 1);
                assert forall|k: int| 0 <= k < rest2.len() implies (#[trigger] rest2[k]).children.len()
                    <= rest2[k].next <= rest2[k].uses.len() by {
                    assert(stack[k] == rest[k]);
                }
                assert forall|k: int| 0 <= k < rest2.len() - 1 implies (#[trigger] rest2[k]).children.len()
                    + 1 == rest2[k].next by {
                    assert(stack[k] == rest[k]);
                }
            }
            lemma_settle_pending(v2);
        }
    }
}

/// An event that does not answer the current action changes nothing, so
/// only answering steps move a discovery (see `law_step_makes_progress`).
pub proof fn law_unanswered_event_changes_nothing(v: DiscoveryView, event: DiscoveryEvent)
    requires
        !answers(v.action, event),
    ensures
        discovery_step(v, event) == v,
{
}

/// The module at `path`, with these uses, is in progress or discovered.
pub open spec fn module_held(v: DiscoveryView, path: Seq<char>, uses: Seq<Seq<char>>) -> bool {
    ||| exists|k: int|
        #![trigger v.stack[k]]
        0 <= k < v.stack.len() && v.stack[k].path == path && v.stack[k].uses == uses
    ||| exists|i: int|
        #![trigger v.records[i]]
        0 <= i < v.records.len() && v.records[i].path == path && v.records[i].uses == uses
}

/// Settling keeps every module, in progress or discovered, with its uses.
proof fn lemma_settle_holds(v: DiscoveryView, path: Seq<char>, uses: Seq<Seq<char>>)
    requires
        module_held(v, path, uses),
    ensures
        module_held(settle(v), path, uses),
    decreases v.stack.len(),
{
    let stack = v.stack;
    if stack.len() == 0 {
        if exists|i: int|
            #![trigger v.records[i]]
            0 <= i < v.records.len() && v.records[i].path == path && v.records[i].uses == uses {
            let i = choose|i: int|
                #![trigger v.records[i]]
                0 <= i < v.records.len() && v.records[i].path == path && v.records[i].uses == uses;
            assert(settle(v).records[i] == v.records[i]);
        }
    } else {
        let top = stack.last();
        let n = stack.len() - 1;
        if top.next < top.uses.len() {
            let w = settle(v);
            if exists|k: int|
                #![trigger v.stack[k]]
                0 <= k < v.stack.len() && v.stack[k].path == path && v.stack[k].uses == uses {
                let k = choose|k: int|
                    #![trigger v.stack[k]]
                    0 <= k < v.stack.len() && v.stack[k].path == path && v.stack[k].uses == uses;
                assert(w.stack[k].path == path && w.stack[k].uses == uses);
            } else {
                let i = choose|i: int|
                    #![trigger v.records[i]]
                    0 <= i < v.records.len() && v.records[i].path == path && v.records[i].uses == uses;
                assert(w.records[i] == v.records[i]);
            }
        } else {
            let rec = ModuleRecord { path: top.path, origin: top.origin, uses: top.uses, children: top.children };
            let link = ChildLink { candidate: top.origin, module: top.path };
            let rest2 = settle_top_use(stack.drop_last(), link);
            let v2 = DiscoveryView { records: v.records.push(rec), stack: rest2, ..v };
            if exists|k: int|
                #![trigger v.stack[k]]
                0 <= k < v.stack.len() && v.stack[k].path == path && v.stack[k].uses == uses {
                let k = choose|k: int|
                    #![trigger v.stack[k]]
                    0 <= k < v.stack.len() && v.stack[k].path == path && v.stack[k].uses == uses;
                if k == n {
                    assert(v2.records[v.records.len() as int] == rec);
                } else {
                    assert(v2.stack[k].path == path && v2.stack[k].uses == uses);
                }
            } else {
                let i = choose|i: int|
                    #![trigger v.records[i]]
                    0 <= i < v.records.len() && v.records[i].path == path && v.records[i].uses == uses;
                assert(v2.records[i] == v.records[i]);
            }
            lemma_settle_holds(v2, path, uses);
        }
    }
}

/// A loaded module keeps exactly the use list its file reported: right
/// after the load, and from then on whether it is in progress or
/// discovered, its uses are the names of that list, all of them, in order.
pub proof fn law_loaded_module_keeps_its_uses(v: DiscoveryView, c: Seq<char>, uses: Vec<String>)
    requires
        v.action == ActionView::Load(c),
    ensures
        module_held(discovery_step(v, DiscoveryEvent::Loaded(Ok(uses))), c, texts(uses@)),
        texts(uses@).len() == uses@.len(),
        forall|j: int| 0 <= j < uses@.len() ==> #[trigger] texts(uses@)[j] == uses@[j]@,
{
    let f = FrameView { path: c, uses: texts(uses@), next: 0, origin: v.load_origin, children: Seq::empty() };
    let v2 = DiscoveryView { stack: v.stack.push(f), ..v };
    assert(v2.stack[v.stack.len() as int] == f);
    lemma_settle_holds(v2, c, texts(uses@));
}

/// A step that leaves the modules as they were keeps each with its uses.
proof fn lemma_same_modules_hold(v: DiscoveryView, w: DiscoveryView, path: Seq<char>, uses: Seq<Seq<char>>)
    requires
        module_held(v, path, uses),
        w.records == v.records,
        w.stack == v.stack,
    ensures
        module_held(w, path, uses),
{
    if exists|k: int|
        #![trigger v.stack[k]]
        0 <= k < v.stack.len() && v.stack[k].path == path && v.stack[k].uses == uses {
        let k = choose|k: int|
            #![trigger v.stack[k]]
            0 <= k < v.stack.len() && v.stack[k].path == path && v.stack[k].uses == uses;
        assert(w.stack[k] == v.stack[k]);
    } else {
        let i = choose|i: int|
            #![trigger v.records[i]]
            0 <= i < v.records.len() && v.records[i].path == path && v.records[i].uses == uses;
        assert(w.records[i] == v.records[i]);
    }
}

/// Every step keeps every module, in progress or discovered, with its
/// uses: a module's use list never changes once it is loaded.
pub proof fn law_step_keeps_modules(
    v: DiscoveryView,
    event: DiscoveryEvent,
    path: Seq<char>,
    uses: Seq<Seq<char>>,
)
    requires
        module_held(v, path, uses),
    ensures
        module_held(discovery_step(v, event), path, uses),
{
    let w = discovery_step(v, event);
    match (v.action, event) {
        (ActionView::Canonicalize(p), DiscoveryEvent::Canonicalized(Ok(c))) => {
            if record_paths(v.records).contains(c@) {
                let s2 = settle_top_use(v.stack, ChildLink { candidate: p, module: c@ });
                let v2 = DiscoveryView { stack: s2, ..v };
                if exists|k: int|
                    #![trigger v.stack[k]]
                    0 <= k < v.stack.len() && v.stack[k].path == path && v.stack[k].uses == uses {
                    let k = choose|k: int|
                        #![trigger v.stack[k]]
                        0 <= k < v.stack.len() && v.stack[k].path == path && v.stack[k].uses == uses;
                    assert(v2.stack[k].path == path && v2.stack[k].uses == uses);
                } else {
                    let i = choose|i: int|
                        #![trigger v.records[i]]
                        0 <= i < v.records.len() && v.records[i].path == path && v.records[i].uses == uses;
                    assert(v2.records[i] == v.records[i]);
                }
                lemma_settle_holds(v2, path, uses);
            } else {
                lemma_same_modules_hold(v, w, path, uses);
            }
        },
        (ActionView::Load(c), DiscoveryEvent::Loaded(Ok(us))) => {
            let f = FrameView { path: c, uses: texts(us@), next: 0, origin: v.load_origin, children: Seq::empty() };
            let v2 = DiscoveryView { stack: v.stack.push(f), ..v };
            if exists|k: int|
                #![trigger v.stack[k]]
                0 <= k < v.stack.len() && v.stack[k].path == path && v.stack[k].uses == uses {
                let k = choose|k: int|
                    #![trigger v.stack[k]]
                    0 <= k < v.stack.len() && v.stack[k].path == path && v.stack[k].uses == uses;
                assert(v2.stack[k] == v.stack[k]);
            } else {
                let i = choose|i: int|
                    #![trigger v.records[i]]
                    0 <= i < v.records.len() && v.records[i].path == path && v.records[i].uses == uses;
                assert(v2.records[i] == v.records[i]);
            }
            lemma_settle_holds(v2, path, uses);
        },
        _ => {
            lemma_same_modules_hold(v, w, path, uses);
        },
    }
}

/// When discovery finishes without error, every loaded module is discovered
/// with the use list its file reported, and each name in that list led to
/// a module discovered before it: no use is skipped.
pub proof fn law_finished_every_use_followed(v: DiscoveryView, path: Seq<char>, uses: Seq<Seq<char>>)
    requires
        discovery_wf(v),
        v.action == ActionView::Finished(Ok(())),
        module_held(v, path, uses),
    ensures
        exists|i: int|
            #![trigger v.records[i]]
            0 <= i < v.records.len() && v.records[i].path == path && v.records[i].uses == uses
                && forall|j: int|
                0 <= j < uses.len() ==> #[trigger] used_module_discovered_before(v.records, i, j),
{
    let i = choose|i: int|
        #![trigger v.records[i]]
        0 <= i < v.records.len() && v.records[i].path == path && v.records[i].uses == uses;
    assert forall|j: int| 0 <= j < uses.len() implies #[trigger] used_module_discovered_before(
        v.records,
        i,
        j,
    ) by {
        lemma_child_discovered_before(v.records, i, j);
    }
}

/// Every step that answers the current action makes progress: it finishes
/// discovery, or adds a module, or leaves the modules as they were and
/// lowers the pending work, or leaves that too and moves the action on
/// from checking a file to resolving its path to loading it. With
/// `law_module_count_bounded`, the count of modules is bounded by the files
/// there are, and the pending work is never negative, so discovery always
/// finishes.
pub proof fn law_step_makes_progress(v: DiscoveryView, event: DiscoveryEvent)
    requires
        discovery_wf(v),
        answers(v.action, event),
    ensures
        pending_work(v.stack) >= 0,
        ({
            let w = discovery_step(v, event);
            ||| w.action is Finished
            ||| module_count(w) == module_count(v) + 1
            ||| module_count(w) == module_count(v) && pending_work(w.stack) < pending_work(v.stack)
            ||| module_count(w) == module_count(v) && pending_work(w.stack) == pending_work(v.stack)
                && action_rank(w.action) < action_rank(v.action)
        }),
{
    lemma_pending_nonneg(v.stack);
    law_step_module_count(v, event);
    match (v.action, event) {
        (ActionView::Canonicalize(path), DiscoveryEvent::Canonicalized(Ok(c))) => {
            if record_paths(v.records).contains(c@) {
                let link = ChildLink { candidate: path, module: c@ };
                let top = v.stack.last();
                let n = v.stack.len() - 1;
                assert(top == v.stack[n]);
                let s2 = settle_top_use(v.stack, link);
                lemma_pending_update_last(v.stack, FrameView { children: top.children.push(link), ..top });
                assert forall|k: int| 0 <= k < s2.len() implies (#[trigger] s2[k]).children.len()
                    <= s2[k].next <= s2[k].uses.len() by {
                    assert(v.stack[k].children.len() <= v.stack[k].next);
                }
                assert forall|k: int| 0 <= k < s2.len() - 1 implies (#[trigger] s2[k]).children.len()
                    + 1 == s2[k].next by {
                    assert(parent_waits(v.stack, k));
                }
                lemma_settle_pending(DiscoveryView { stack: s2, ..v });
            }
        },
        _ => {},
    }
}

/// The modules discovered and in progress are distinct files: when all of
/// them are among a finite set of files, there are no more of them than
/// files in the set. So the nesting of modules in progress never goes
/// deeper than the number of files, and with `law_step_module_count` no
/// more files are loaded than there are: an import cycle cannot make
/// discovery go on forever.
pub proof fn law_module_count_bounded(v: DiscoveryView, files: Set<Seq<char>>)
    requires
        discovery_wf(v),
        files.finite(),
        forall|i: int| 0 <= i < v.records.len() ==> files.contains(#[trigger] v.records[i].path),
        forall|k: int| 0 <= k < v.stack.len() ==> files.contains(#[trigger] v.stack[k].path),
    ensures
        module_count(v) <= files.len(),
        v.stack.len() <= files.len(),
{
    let all = record_paths(v.records) + stack_paths(v.stack);
    let d = record_paths(v.records);
    let sp = stack_paths(v.stack);
    assert forall|a: int, b: int| 0 <= a < all.len() && 0 <= b < all.len() && a != b implies all[a]
        != all[b] by {
        if a < d.len() && b < d.len() {
            assert(all[a] == d[a] && all[b] == d[b]);
        } else if a >= d.len() && b >= d.len() {
            assert(all[a] == sp[a - d.len()] && all[b] == sp[b - d.len()]);
        } else if a < d.len() {
            assert(all[b] == v.stack[b - d.len()].path);
            assert(d.contains(all[a]));
        } else {
            assert(all[a] == v.stack[a - d.len()].path);
            assert(d.contains(all[b]));
        }
    }
    assert(all.no_duplicates());
    all.unique_seq_to_set();
    assert forall|x: Seq<char>| all.to_set().contains(x) implies files.contains(x) by {
        let a = choose|a: int| 0 <= a < all.len() && all[a] == x;
        if a < d.len() {
            assert(all[a] == v.records[a].path);
        } else {
            assert(all[a] == v.stack[a - d.len()].path);
        }
    }
    vstd::set_lib::lemma_len_subset(all.to_set(), files);
}

/// Reaching a module that is still in progress is an import cycle: discovery
/// stops with a resolve error that names the cycle.
pub proof fn law_cycle_is_an_error(v: DiscoveryView, path: Seq<char>, c: String)
    requires
        discovery_wf(v),
        v.action == ActionView::Canonicalize(path),
        stack_paths(v.stack).contains(c@),
    ensures
        discovery_step(v, DiscoveryEvent::Canonicalized(Ok(c))).action == ActionView::Finished(
            Err(resolve_error(cycle_message(stack_paths(v.stack), c@))),
        ),
{
    if record_paths(v.records).contains(c@) {
        let j = choose|j: int| 0 <= j < stack_paths(v.stack).len() && stack_paths(v.stack)[j] == c@;
        assert(v.stack[j].path == c@);
    }
}

/// Reaching a module that was already discovered (a repeated or diamond
/// import) is no error and loads nothing: the import itself changes neither
/// the discovered modules nor those in progress, and only records that the
/// importer's use led to that module; then discovery carries on with the
/// importer's next `use`.
pub proof fn law_repeated_import_is_idempotent(v: DiscoveryView, path: Seq<char>, c: String)
    requires
        discovery_wf(v),
        v.action == ActionView::Canonicalize(path),
        record_paths(v.records).contains(c@),
    ensures
        settle_top_use(v.stack, ChildLink { candidate: path, module: c@ }).len() == v.stack.len(),
        stack_paths(settle_top_use(v.stack, ChildLink { candidate: path, module: c@ }))
            == stack_paths(v.stack),
        settle_top_use(v.stack, ChildLink { candidate: path, module: c@ }).drop_last()
            == v.stack.drop_last(),
        settle_top_use(v.stack, ChildLink { candidate: path, module: c@ }).last() == (FrameView {
            children: v.stack.last().children.push(ChildLink { candidate: path, module: c@ }),
            ..v.stack.last()
        }),
        discovery_step(v, DiscoveryEvent::Canonicalized(Ok(c))) == settle(
            DiscoveryView {
                stack: settle_top_use(v.stack, ChildLink { candidate: path, module: c@ }),
                ..v
            },
        ),
        module_count(discovery_step(v, DiscoveryEvent::Canonicalized(Ok(c)))) == module_count(v),
        discovery_step(v, DiscoveryEvent::Canonicalized(Ok(c))).action is CheckModuleFile
            || discovery_step(v, DiscoveryEvent::Canonicalized(Ok(c))).action == ActionView::Finished(
            Ok(()),
        ),
{
    let link = ChildLink { candidate: path, module: c@ };
    let s2 = settle_top_use(v.stack, link);
    lemma_settle_repeat(v, path, c@);
    assert(stack_paths(s2) =~= stack_paths(v.stack));
    assert(s2.drop_last() =~= v.stack.drop_last());
    lemma_settle_action(DiscoveryView { stack: s2, ..v });
    law_step_module_count(v, DiscoveryEvent::Canonicalized(Ok(c)));
}

/// A `use` is looked up as `<name>.kes` next to the module that wrote it,
/// and a missing file stops discovery with an error naming the expected path.
pub proof fn law_missing_module_is_an_error(v: DiscoveryView, module: Seq<char>, candidate: Seq<char>)
    requires
        discovery_wf(v),
        v.action == ActionView::CheckModuleFile(module, candidate),
    ensures
        candidate == module_file_path(v.stack.last().path, module),
        discovery_step(v, DiscoveryEvent::ModuleFileChecked(false)).action == ActionView::Finished(
            Err(resolve_error(not_found_message(module, candidate))),
        ),
{
}

/// Once discovery has finished, nothing changes it.
pub proof fn law_finished_is_final(v: DiscoveryView, event: DiscoveryEvent)
    requires
        v.action is Finished,
    ensures
        discovery_step(v, event) == v,
{
}

/// Whether `path` is among the discovered modules.
fn contains_record(records: &Vec<Record>, path: &String) -> (found: bool)
    ensures
        found == record_paths(records@.map_values(|r: Record| r@)).contains(path@),
{
    let ghost paths = record_paths(records@.map_values(|r: Record| r@));
    let mut i: usize = 0;
    while i < records.len()
        invariant
            i <= records.len(),
            paths == record_paths(records@.map_values(|r: Record| r@)),
            forall|k: int| 0 <= k < i ==> paths[k] != path@,
        decreases records.len() - i,
    {
        assert(paths[i as int] == records@[i as int]@.path);
        if records[i].path == *path {
            return true;
        }
        i = i + 1;
    }
    false
}

/// "kestrelc: can't read '<path>': <error>"
fn cant_read(path: &str, io_error: &str) -> (msg: String)
    ensures
        msg@ == cant_read_message(path@, io_error@),
{
    String::from_str("kestrelc: can't read '").concat(path).concat("': ").concat(io_error)
}

/// "kestrelc: module '<name>' not found -- expected '<path>'"
fn not_found(module: &str, expected: &str) -> (msg: String)
    ensures
        msg@ == not_found_message(module@, expected@),
{
    String::from_str("kestrelc: module '").concat(module).concat("' not found -- expected '").concat(
        expected,
    ).concat("'")
}

/// Starts discovering the modules that the file at `entry_path` uses,
/// directly or transitively; the first work asked for is the entry's
/// canonical path.
pub fn discover_modules(entry_path: String) -> (d: ModuleDiscovery)
    ensures
        d@.entry == entry_path@,
        d@.records.len() == 0,
        d@.stack.len() == 0,
        d@.action == ActionView::Canonicalize(entry_path@),
        discovery_wf(d@),
{
    let ghost entry = entry_path@;
    let d = ModuleDiscovery {
        entry: Ghost(entry),
        discovered: Vec::new(),
        stack: Vec::new(),
        action: DiscoveryAction::Canonicalize(entry_path),
        load_origin: Ghost(entry),
    };
    assert(d@.records =~= Seq::empty());
    assert(d@.stack =~= Seq::empty());
    d
}

impl ModuleDiscovery {
    /// What this discovery waits for, or how it ended.
    pub fn action(&self) -> (a: &DiscoveryAction)
        ensures
            a@ == self@.action,
    {
        &self.action
    }

    /// The canonical paths of the modules discovered so far, in the order
    /// they were completed: each module after every module it uses.
    pub fn discovered(&self) -> (paths: Vec<String>)
        ensures
            texts(paths@) == record_paths(self@.records),
    {
        let mut paths: Vec<String> = Vec::new();
        let mut i: usize = 0;
        while i < self.discovered.len()
            invariant
                i <= self.discovered.len(),
                texts(paths@) == record_paths(self@.records).take(i as int),
            decreases self.discovered.len() - i,
        {
            let ghost old_paths = paths@;
            let p = self.discovered[i].path.clone();
            assert(p@ == self.discovered@[i as int].path@);
            paths.push(p);
            assert(texts(paths@) =~= texts(old_paths).push(p@));
            assert(self@.records[i as int] == self.discovered@[i as int]@);
            assert(record_paths(self@.records)[i as int] == self.discovered@[i as int]@.path);
            assert(texts(paths@) =~= record_paths(self@.records).take(i + 1));
            i = i + 1;
        }
        assert(record_paths(self@.records).take(i as int) =~= record_paths(self@.records));
        paths
    }

    /// The index of `path` among the modules in progress, if it is one.
    fn in_progress_index(&self, path: &String) -> (k: Option<usize>)
        ensures
            match k {
                Some(k) => k < self@.stack.len() && self@.stack[k as int].path == path@,
                None => !stack_paths(self@.stack).contains(path@),
            },
    {
        let mut i: usize = 0;
        while i < self.stack.len()
            invariant
                i <= self.stack.len(),
                forall|k: int| 0 <= k < i ==> self.stack@[k]@.path != path@,
            decreases self.stack.len() - i,
        {
            if self.stack[i].path == *path {
                assert(self@.stack[i as int] == self.stack@[i as int]@);
                return Some(i);
            }
            i = i + 1;
        }
        assert forall|k: int| 0 <= k < stack_paths(self@.stack).len() implies stack_paths(
            self@.stack,
        )[k] != path@ by {
            assert(stack_paths(self@.stack)[k] == self.stack@[k]@.path);
        }
        None
    }

    /// The message for the cycle that `canonical`, found in progress at
    /// index `k`, closes.
    fn cycle_error_message(&self, k: usize, canonical: &String) -> (msg: String)
        requires
            k < self@.stack.len(),
            self@.stack[k as int].path == canonical@,
            stack_paths(self@.stack).no_duplicates(),
        ensures
            msg@ == cycle_message(stack_paths(self@.stack), canonical@),
    {
        let ghost paths = stack_paths(self@.stack);
        assert(paths[k as int] == canonical@);
        assert(paths.index_of(canonical@) == k as int);
        let mut msg = String::from_str("kestrelc: import cycle detected: ");
        let mut i: usize = k;
        while i < self.stack.len()
            invariant
                k <= i <= self.stack.len(),
                paths == stack_paths(self@.stack),
                paths.len() == self.stack.len(),
                msg@ == "kestrelc: import cycle detected: "@ + arrow_chain(
                    paths.subrange(k as int, i as int),
                ),
            decreases self.stack.len() - i,
        {
            assert(paths.subrange(k as int, i + 1).drop_last() =~= paths.subrange(
                k as int,
                i as int,
            ));
            assert(paths[i as int] == self.stack@[i as int]@.path);
            msg.append(self.stack[i].path.as_str());
            msg.append(" -> ");
            i = i + 1;
        }
        assert(paths.subrange(k as int, i as int) =~= paths.skip(k as int));
        msg.append(canonical.as_str());
        msg
    }

    /// Settles one more use of the innermost module in progress.
    fn settle_top_link(&mut self, link: Ghost<ChildLink>)
        ensures
            final(self)@ == (DiscoveryView {
                stack: settle_top_use(old(self)@.stack, link@),
                ..old(self)@
            }),
    {
        let ghost before = self@;
        if self.stack.len() > 0 {
            let mut parent = self.stack.pop().unwrap();
            parent.children = Ghost(parent.children@.push(link@));
            self.stack.push(parent);
            assert(self@.stack =~= settle_top_use(before.stack, link@));
        }
    }

    /// Records every module whose uses are all taken up, innermost first,
    /// then asks for the next use of the innermost remaining module, or
    /// finishes.
    fn settle_stack(&mut self)
        ensures
            final(self)@ == settle(old(self)@),
    {
        let ghost target = settle(self@);
        loop
            invariant
                settle(self@) == target,
                target == settle(old(self)@),
            decreases self.stack.len(),
        {
            if self.stack.len() == 0 {
                self.action = DiscoveryAction::Finished(Ok(()));
                return;
            }
            let ghost before = self@;
            let top = self.stack.len() - 1;
            if self.stack[top].next < self.stack[top].uses.len() {
                let mut frame = self.stack.pop().unwrap();
                assert(frame@ == before.stack.last());
                let name = frame.uses[frame.next].clone();
                assert(name@ == frame@.uses[frame.next as int]);
                frame.next = frame.next + 1;
                let candidate = resolve_module_path(frame.path.as_str(), name.as_str());
                self.stack.push(frame);
                self.action = DiscoveryAction::CheckModuleFile { module: name, candidate };
                assert(self@.stack =~= before.stack.update(
                    before.stack.len() - 1,
                    FrameView { next: before.stack.last().next + 1, ..before.stack.last() },
                ));
                return;
            } else {
                let frame = self.stack.pop().unwrap();
                assert(frame@ == before.stack.last());
                let ghost link = ChildLink { candidate: frame.origin@, module: frame.path@ };
                let ghost uses = texts(frame.uses@);
                let record = Record {
                    path: frame.path,
                    origin: frame.origin,
                    uses: Ghost(uses),
                    children: frame.children,
                };
                self.discovered.push(record);
                assert(self@.stack =~= before.stack.drop_last());
                self.settle_top_link(Ghost(link));
                assert(self@.records =~= before.records.push(
                    ModuleRecord {
                        path: before.stack.last().path,
                        origin: before.stack.last().origin,
                        uses: before.stack.last().uses,
                        children: before.stack.last().children,
                    },
                ));
            }
        }
    }

    /// Takes the outcome of the work asked for and moves on.
    pub fn step(&mut self, event: DiscoveryEvent)
        requires
            discovery_wf(old(self)@),
        ensures
            final(self)@ == discovery_step(old(self)@, event),
            discovery_wf(final(self)@),
    {
        let ghost before = self@;
        let ghost ev = event;
        proof {
            law_step_keeps_wf(before, ev);
        }
        match event {
            DiscoveryEvent::Canonicalized(res) => {
                let path = match &self.action {
                    DiscoveryAction::Canonicalize(p) => p.clone(),
                    _ => return ,
                };
                match res {
                    Err(io) => {
                        let msg = cant_read(path.as_str(), io.as_str());
                        self.action = DiscoveryAction::Finished(Err(KestrelcError::resolve(msg)));
                    },
                    Ok(c) => {
                        if contains_record(&self.discovered, &c) {
                            self.settle_top_link(Ghost(ChildLink { candidate: path@, module: c@ }));
                            self.settle_stack();
                        } else {
                            match self.in_progress_index(&c) {
                                Some(k) => {
                                    let msg = self.cycle_error_message(k, &c);
                                    self.action = DiscoveryAction::Finished(
                                        Err(KestrelcError::resolve(msg)),
                                    );
                                    assert(stack_paths(before.stack).contains(c@)) by {
                                        assert(stack_paths(before.stack)[k as int] == c@);
                                    }
                                },
                                None => {
                                    self.action = DiscoveryAction::Load(c);
                                    self.load_origin = Ghost(path@);
                                },
                            }
                        }
                    },
                }
            },
            DiscoveryEvent::Loaded(res) => {
                let canonical = match &self.action {
                    DiscoveryAction::Load(c) => c.clone(),
                    _ => return ,
                };
                match res {
                    Err(LoadFailure::Unreadable(io)) => {
                        let msg = cant_read(canonical.as_str(), io.as_str());
                        self.action = DiscoveryAction::Finished(Err(KestrelcError::resolve(msg)));
                    },
                    Err(LoadFailure::Invalid(e)) => {
                        self.action = DiscoveryAction::Finished(Err(e));
                    },
                    Ok(uses) => {
                        let frame = Frame {
                            path: canonical,
                            uses,
                            next: 0,
                            origin: Ghost(self.load_origin@),
                            children: Ghost(Seq::empty()),
                        };
                        let ghost fv = frame@;
                        self.stack.push(frame);
                        assert(self@.stack =~= before.stack.push(fv));
                        self.settle_stack();
                    },
                }
            },
            DiscoveryEvent::ModuleFileChecked(found) => {
                let (module, candidate) = match &self.action {
                    DiscoveryAction::CheckModuleFile { module, candidate } => (
                        module.clone(),
                        candidate.clone(),
                    ),
                    _ => return ,
                };
                if found {
                    self.action = DiscoveryAction::Canonicalize(candidate);
                } else {
                    let msg = not_found(module.as_str(), candidate.as_str());
                    self.action = DiscoveryAction::Finished(Err(KestrelcError::resolve(msg)));
                }
            },
        }
    }
}

} // verus!
