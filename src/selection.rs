//! The active selection: one persisted JDK home path, resolved against the
//! registry when read.
use vstd::prelude::*;

use crate::paths::{home_directory, join_path, joined};
use crate::record::{opt_view, views, JdkInfo, JdkModel};
use crate::text::{trim, trimmed};

verus! {

/// What `set_active` was asked to select.
#[derive(Debug, Clone)]
pub enum SelectionTarget {
    /// A filesystem path, home-relative paths already expanded.
    Path(String),
    /// A record identifier, to be looked up in the registry.
    Id(String),
}

pub ghost enum TargetModel {
    Path(Seq<char>),
    Id(Seq<char>),
}

impl View for SelectionTarget {
    type V = TargetModel;

    open spec fn view(&self) -> TargetModel {
        match self {
            SelectionTarget::Path(p) => TargetModel::Path(p@),
            SelectionTarget::Id(i) => TargetModel::Id(i@),
        }
    }
}

/// The persisted active selection: the home path of the active JDK, if any.
#[derive(Debug, Clone)]
pub struct ActiveSelection {
    pub home: Option<String>,
}

/// `s` starts with `~/`.
pub open spec fn is_home_relative(s: Seq<char>) -> bool {
    s.len() >= 2 && s[0] == '~' && s[1] == '/'
}

/// `s` is an absolute or home-relative path rather than an identifier.
pub open spec fn is_path_like(s: Seq<char>) -> bool {
    (s.len() > 0 && s[0] == '/') || is_home_relative(s)
}

/// How an input of `set_active` is read: a path-like input is a path, with a
/// leading `~/` expanded against the home directory when one is known; any
/// other input is an identifier.
pub open spec fn target_of(input: Seq<char>, home: Option<Seq<char>>) -> TargetModel {
    if is_path_like(input) {
        if is_home_relative(input) && home is Some {
            TargetModel::Path(joined(home->Some_0, input.subrange(2, input.len() as int)))
        } else {
            TargetModel::Path(input)
        }
    } else {
        TargetModel::Id(input)
    }
}

/// Position of the first record with identifier `id`, or `js.len()`.
pub open spec fn find_id(js: Seq<JdkModel>, id: Seq<char>) -> int
    decreases js.len(),
{
    if js.len() == 0 {
        0
    } else if js[0].id == id {
        0
    } else {
        1 + find_id(js.drop_first(), id)
    }
}

/// Position of the first record with home `home`, or `js.len()`.
pub open spec fn find_home(js: Seq<JdkModel>, home: Seq<char>) -> int
    decreases js.len(),
{
    if js.len() == 0 {
        0
    } else if js[0].home == home {
        0
    } else {
        1 + find_home(js.drop_first(), home)
    }
}

pub open spec fn id_not_found_message(id: Seq<char>) -> Seq<char> {
    "JDK with ID '"@ + id + "' not found"@
}

pub open spec fn path_missing_message(path: Seq<char>) -> Seq<char> {
    "JDK path does not exist: "@ + path
}

pub open spec fn registry_view(r: Result<Vec<JdkInfo>, String>) -> Result<Seq<JdkModel>, Seq<char>> {
    match r {
        Ok(v) => Ok(views(v@)),
        Err(e) => Err(e@),
    }
}

pub open spec fn string_result_view(r: Result<String, String>) -> Result<Seq<char>, Seq<char>> {
    match r {
        Ok(s) => Ok(s@),
        Err(e) => Err(e@),
    }
}

pub open spec fn lookup_view(r: Result<Option<JdkInfo>, String>) -> Result<
    Option<JdkModel>,
    Seq<char>,
> {
    match r {
        Ok(Some(j)) => Ok(Some(j@)),
        Ok(None) => Ok(None),
        Err(e) => Err(e@),
    }
}

/// The home path that a target resolves to: a path is itself; an identifier
/// is the home of the first registry record that carries it, an error naming
/// it when there is none, or the registry's own error.
pub open spec fn resolution(t: TargetModel, registry: Result<Seq<JdkModel>, Seq<char>>) -> Result<
    Seq<char>,
    Seq<char>,
> {
    match t {
        TargetModel::Path(p) => Ok(p),
        TargetModel::Id(id) => match registry {
            Err(e) => Err(e),
            Ok(js) => if find_id(js, id) < js.len() {
                Ok(js[find_id(js, id)].home)
            } else {
                Err(id_not_found_message(id))
            },
        },
    }
}

/// The outcome of selecting a resolved path: it succeeds exactly when the
/// path exists.
pub open spec fn commit_result(resolved: Seq<char>, exists: bool) -> Result<Seq<char>, Seq<char>> {
    if exists {
        Ok(resolved)
    } else {
        Err(path_missing_message(resolved))
    }
}

/// The persisted selection after selecting a resolved path: the path when it
/// exists, else the earlier selection unchanged.
pub open spec fn committed_home(
    earlier: Option<Seq<char>>,
    resolved: Seq<char>,
    exists: bool,
) -> Option<Seq<char>> {
    if exists {
        Some(resolved)
    } else {
        earlier
    }
}

/// The selection read back from the persisted text: trimmed, and none when
/// the text is absent or blank.
pub open spec fn loaded_home(text: Option<Seq<char>>) -> Option<Seq<char>> {
    match text {
        None => None,
        Some(t) => if trim(t).len() == 0 {
            None
        } else {
            Some(trim(t))
        },
    }
}

/// The record returned for a selection whose path no registry record has.
pub open spec fn synthetic_record(home: Seq<char>) -> JdkModel {
    JdkModel {
        id: "unknown"@,
        version_major: 0,
        version_full: "unknown"@,
        home,
        vendor: None,
    }
}

/// The record for an active home: the first registry record with that home,
/// else the synthetic record.
pub open spec fn active_record(home: Seq<char>, js: Seq<JdkModel>) -> JdkModel {
    if find_home(js, home) < js.len() {
        js[find_home(js, home)]
    } else {
        synthetic_record(home)
    }
}

/// What reading the active JDK gives: no selection, the record for the
/// selected home, or the registry's error.
pub open spec fn active_lookup(
    home: Option<Seq<char>>,
    registry: Result<Seq<JdkModel>, Seq<char>>,
) -> Result<Option<JdkModel>, Seq<char>> {
    match home {
        None => Ok(None),
        Some(h) => match registry {
            Err(e) => Err(e),
            Ok(js) => Ok(Some(active_record(h, js))),
        },
    }
}

proof fn lemma_find_id(js: Seq<JdkModel>, id: Seq<char>, i: int)
    requires
        0 <= i <= js.len(),
        forall|j: int| 0 <= j < i ==> #[trigger] js[j].id != id,
        i == js.len() || js[i].id == id,
    ensures
        find_id(js, id) == i,
    decreases i,
{
    if i > 0 {
        lemma_find_id(js.drop_first(), id, i - 1);
    }
}

proof fn lemma_find_home(js: Seq<JdkModel>, home: Seq<char>, i: int)
    requires
        0 <= i <= js.len(),
        forall|j: int| 0 <= j < i ==> #[trigger] js[j].home != home,
        i == js.len() || js[i].home == home,
    ensures
        find_home(js, home) == i,
    decreases i,
{
    if i > 0 {
        lemma_find_home(js.drop_first(), home, i - 1);
    }
}

impl SelectionTarget {
    /// Resolving this target consults the registry.
    pub fn needs_registry(&self) -> (r: bool)
        ensures
            r == (self@ is Id),
    {
        match self {
            SelectionTarget::Path(_) => false,
            SelectionTarget::Id(_) => true,
        }
    }
}

/// How an input of `set_active` is read, given the home directory.
pub fn selection_target(id_or_home: &str, home: &Option<String>) -> (r: SelectionTarget)
    ensures
        r@ == target_of(id_or_home@, opt_view(*home)),
{
    let n = id_or_home.unicode_len();
    let rooted = n > 0 && id_or_home.get_char(0) == '/';
    let home_relative = n >= 2 && id_or_home.get_char(0) == '~' && id_or_home.get_char(1) == '/';
    if !rooted && !home_relative {
        return SelectionTarget::Id(id_or_home.to_owned());
    }
    if home_relative {
        match home {
            Some(h) => {
                let rest = id_or_home.substring_char(2, n);
                return SelectionTarget::Path(join_path(h.as_str(), rest));
            },
            None => {},
        }
    }
    SelectionTarget::Path(id_or_home.to_owned())
}

/// The home path that a target resolves to, looking identifiers up in the
/// registry.
pub fn resolve_target(target: &SelectionTarget, registry: Result<Vec<JdkInfo>, String>) -> (r:
    Result<String, String>)
    ensures
        string_result_view(r) == resolution(target@, registry_view(registry)),
{
    match target {
        SelectionTarget::Path(p) => Ok(p.clone()),
        SelectionTarget::Id(id) => match registry {
            Err(e) => Err(e),
            Ok(jdks) => {
                let ghost js = views(jdks@);
                let mut i: usize = 0;
                while i < jdks.len() && jdks[i].id != *id
                    invariant
                        i <= jdks@.len(),
                        js == views(jdks@),
                        forall|j: int| 0 <= j < i ==> #[trigger] js[j].id != id@,
                    decreases jdks@.len() - i,
                {
                    i = i + 1;
                }
                proof {
                    lemma_find_id(js, id@, i as int);
                }
                if i < jdks.len() {
                    Ok(jdks[i].home.clone())
                } else {
                    let mut msg = "JDK with ID '".to_owned();
                    msg.append(id.as_str());
                    msg.append("' not found");
                    Err(msg)
                }
            },
        },
    }
}

impl ActiveSelection {
    /// The state before any selection was made.
    pub fn new() -> (r: ActiveSelection)
        ensures
            r.home is None,
    {
        ActiveSelection { home: None }
    }

    /// The selection read back from the persisted text, `None` when there is
    /// none.
    pub fn load(text: Option<String>) -> (r: ActiveSelection)
        ensures
            opt_view(r.home) == loaded_home(opt_view(text)),
    {
        match text {
            None => ActiveSelection { home: None },
            Some(t) => {
                let h = trimmed(t.as_str());
                if h.as_str().unicode_len() == 0 {
                    ActiveSelection { home: None }
                } else {
                    ActiveSelection { home: Some(h) }
                }
            },
        }
    }

    /// Selects a resolved home path, which the caller has probed on disk:
    /// a missing path is refused and leaves the selection as it was.
    pub fn set_active(&mut self, resolved: String, exists: bool) -> (r: Result<String, String>)
        ensures
            string_result_view(r) == commit_result(resolved@, exists),
            opt_view(final(self).home) == committed_home(opt_view(old(self).home), resolved@, exists),
            !exists ==> *final(self) == *old(self),
    {
        if !exists {
            let mut msg = "JDK path does not exist: ".to_owned();
            msg.append(resolved.as_str());
            return Err(msg);
        }
        self.home = Some(resolved.clone());
        Ok(resolved)
    }

    /// The active JDK: none when nothing is selected; otherwise the registry
    /// record with the selected home, or a synthetic record carrying only the
    /// home when the registry has none. A registry error is passed on.
    pub fn get_active_jdk(&self, registry: Result<Vec<JdkInfo>, String>) -> (r: Result<
        Option<JdkInfo>,
        String,
    >)
        ensures
            lookup_view(r) == active_lookup(opt_view(self.home), registry_view(registry)),
    {
        match &self.home {
            None => Ok(None),
            Some(h) => match registry {
                Err(e) => Err(e),
                Ok(jdks) => {
                    let ghost js = views(jdks@);
                    let mut i: usize = 0;
                    while i < jdks.len() && jdks[i].home != *h
                        invariant
                            i <= jdks@.len(),
                            js == views(jdks@),
                            forall|j: int| 0 <= j < i ==> #[trigger] js[j].home != h@,
                        decreases jdks@.len() - i,
                    {
                        i = i + 1;
                    }
                    proof {
                        lemma_find_home(js, h@, i as int);
                    }
                    if i < jdks.len() {
                        Ok(Some(jdks[i].duplicate()))
                    } else {
                        Ok(
                            Some(
                                JdkInfo {
                                    id: "unknown".to_owned(),
                                    version_major: 0,
                                    version_full: "unknown".to_owned(),
                                    home: h.clone(),
                                    vendor: None,
                                },
                            ),
                        )
                    }
                },
            },
        }
    }
}

/// How an input of `set_active` is read, with `~/` expanded against the
/// current user's home directory.
pub fn set_active_target(id_or_home: &str) -> (r: SelectionTarget)
    ensures
        exists|h: Option<Seq<char>>| r@ == target_of(id_or_home@, h),
{
    let home = home_directory();
    let r = selection_target(id_or_home, &home);
    assert(r@ == target_of(id_or_home@, opt_view(home)));
    r
}

proof fn lemma_find_home_bounds(js: Seq<JdkModel>, home: Seq<char>)
    ensures
        0 <= find_home(js, home) <= js.len(),
        find_home(js, home) < js.len() ==> js[find_home(js, home)].home == home,
    decreases js.len(),
{
    if js.len() > 0 && js[0].home != home {
        lemma_find_home_bounds(js.drop_first(), home);
    }
}

/// Selecting a path that does not exist fails, and the persisted selection
/// stays what it was.
pub proof fn law_missing_path_rejected(
    earlier: Option<Seq<char>>,
    input: Seq<char>,
    home: Option<Seq<char>>,
    registry: Result<Seq<JdkModel>, Seq<char>>,
)
    requires
        is_path_like(input),
    ensures
        target_of(input, home) is Path,
        resolution(target_of(input, home), registry) is Ok,
        commit_result(resolution(target_of(input, home), registry)->Ok_0, false) is Err,
        committed_home(earlier, resolution(target_of(input, home), registry)->Ok_0, false)
            == earlier,
{
}

/// After a successful selection, reading the active JDK back from the
/// persisted text gives a record whose home is the selected path. This holds
/// for paths without surrounding whitespace (the persisted text is trimmed on
/// reading) and when the registry can be listed.
pub proof fn law_set_then_get(
    earlier: Option<Seq<char>>,
    target: TargetModel,
    registry: Result<Seq<JdkModel>, Seq<char>>,
    later: Seq<JdkModel>,
)
    requires
        resolution(target, registry) is Ok,
        resolution(target, registry)->Ok_0.len() > 0,
        trim(resolution(target, registry)->Ok_0) == resolution(target, registry)->Ok_0,
    ensures
        ({
            let p = resolution(target, registry)->Ok_0;
            let got = active_lookup(loaded_home(committed_home(earlier, p, true)), Ok(later));
            &&& commit_result(p, true) == Ok::<Seq<char>, Seq<char>>(p)
            &&& got is Ok
            &&& got->Ok_0 is Some
            &&& got->Ok_0->Some_0.home == p
        }),
{
    let p = resolution(target, registry)->Ok_0;
    lemma_find_home_bounds(later, p);
}

/// With nothing ever selected, reading the active JDK gives no selection and
/// no error, whatever the registry holds.
pub proof fn law_fresh_state_has_no_selection(registry: Result<Seq<JdkModel>, Seq<char>>)
    ensures
        active_lookup(loaded_home(None), registry) == Ok::<Option<JdkModel>, Seq<char>>(None),
{
}

} // verus!
