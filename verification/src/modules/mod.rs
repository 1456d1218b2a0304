//! The modules that patch the host process, and the manager that keeps the
//! enabled ones.

use vstd::prelude::*;
use std::marker::PhantomData;

pub mod disable_censorship;
pub mod http;
pub mod mhypbase;
pub mod res;
pub mod rsa;
pub mod sdkutil;

verus! {

/// The kinds of module; the manager keeps at most one module of each kind.
#[derive(Clone, Copy, Debug, PartialEq, Eq, Hash, Structural)]
pub enum ModuleType {
    Mhypbase,
    SdkUtil,
    Http,
    RSAEncrypt,
    DisableCensorship,
    RES,
}

/// A module marker type and the kind of module it names.
pub trait ModuleKind {
    spec fn kind() -> ModuleType;

    fn module_type() -> (t: ModuleType)
        ensures
            t == Self::kind(),
    ;
}

/// The registers a hook routine reads, taken from the hooked call.
#[derive(Clone, Copy, Debug, PartialEq, Eq)]
pub struct Registers {
    pub rcx: u64,
    pub rdx: u64,
}

/// Why a module could not be set up.
#[derive(Clone, Copy, Debug, PartialEq, Eq)]
pub enum ModuleError {
    /// No address was found for the routine that the module patches.
    MissingAddress(ModuleType),
}

/// The message reported when no address was found for a module.
pub open spec fn missing_address_message(t: ModuleType) -> Seq<char> {
    match t {
        ModuleType::SdkUtil => "Cannot find SdkUtil address."@,
        ModuleType::DisableCensorship => "Cannot find DisableCensorship address."@,
        _ => "Cannot find address."@,
    }
}

impl ModuleError {
    /// The text of the error.
    pub fn message(&self) -> (r: String)
        ensures
            match *self {
                ModuleError::MissingAddress(t) => r@ == missing_address_message(t),
            },
    {
        match *self {
            ModuleError::MissingAddress(ModuleType::SdkUtil) => "Cannot find SdkUtil address.".to_owned(),
            ModuleError::MissingAddress(ModuleType::DisableCensorship) => {
                "Cannot find DisableCensorship address.".to_owned()
            },
            ModuleError::MissingAddress(_) => "Cannot find address.".to_owned(),
        }
    }
}

/// A module of kind `T` and the address of the routine it patches, if one
/// was found.
pub struct MhyContext<T> {
    pub addr: Option<usize>,
    pub _phantom: PhantomData<T>,
}

impl<T> MhyContext<T> {
    pub fn new(addr: Option<usize>) -> (r: Self)
        ensures
            r.addr == addr,
    {
        MhyContext { addr, _phantom: PhantomData }
    }
}

impl<T: ModuleKind> MhyContext<T> {
    pub fn get_module_type(&self) -> (r: ModuleType)
        ensures
            r == T::kind(),
    {
        T::module_type()
    }

    /// The address to patch when the module is set up: the one it was made
    /// with, or the error that set-up fails with when there is none.
    pub fn hook_address(&self) -> (r: Result<usize, ModuleError>)
        ensures
            r == (match self.addr {
                Some(a) => Ok::<usize, ModuleError>(a),
                None => Err(ModuleError::MissingAddress(T::kind())),
            }),
    {
        match self.addr {
            Some(a) => Ok(a),
            None => Err(ModuleError::MissingAddress(T::module_type())),
        }
    }
}

/// The enabled modules, at most one of each kind.
pub struct ModuleManager<M> {
    modules: Vec<(ModuleType, M)>,
}

/// `s` holds an entry of kind `t`.
pub open spec fn has_kind<M>(s: Seq<(ModuleType, M)>, t: ModuleType) -> bool {
    exists|i: int| 0 <= i < s.len() && #[trigger] s[i].0 == t
}

/// No two entries of `s` are of the same kind.
pub open spec fn kinds_distinct<M>(s: Seq<(ModuleType, M)>) -> bool {
    forall|i: int, j: int| 0 <= i < j < s.len() ==> #[trigger] s[i].0 != #[trigger] s[j].0
}

/// The position of the entry of kind `t` in `s`.
pub open spec fn kind_index<M>(s: Seq<(ModuleType, M)>, t: ModuleType) -> int {
    choose|i: int| 0 <= i < s.len() && #[trigger] s[i].0 == t
}

/// The entries of `s` as a map from kind to module.
pub open spec fn entries_map<M>(s: Seq<(ModuleType, M)>) -> Map<ModuleType, M> {
    Map::new(|t: ModuleType| has_kind(s, t), |t: ModuleType| s[kind_index(s, t)].1)
}

proof fn lemma_kind_index<M>(s: Seq<(ModuleType, M)>, i: int)
    requires
        kinds_distinct(s),
        0 <= i < s.len(),
    ensures
        kind_index(s, s[i].0) == i,
        entries_map(s).dom().contains(s[i].0),
        entries_map(s)[s[i].0] == s[i].1,
{
    let j = kind_index(s, s[i].0);
    assert(has_kind(s, s[i].0));
    if j < i {
        assert(s[j].0 != s[i].0);
    } else if j > i {
        assert(s[i].0 != s[j].0);
    }
}

proof fn lemma_entries_map_update<M>(s: Seq<(ModuleType, M)>, i: int, m: M)
    requires
        kinds_distinct(s),
        0 <= i < s.len(),
    ensures
        kinds_distinct(s.update(i, (s[i].0, m))),
        entries_map(s.update(i, (s[i].0, m))) == entries_map(s).insert(s[i].0, m),
{
    let t = s[i].0;
    let n = s.update(i, (t, m));
    assert(forall|k: int| 0 <= k < s.len() ==> #[trigger] n[k].0 == s[k].0);
    assert forall|k: ModuleType| #[trigger] has_kind(n, k) == (has_kind(s, k) || k == t) by {
        if has_kind(s, k) {
            let w = kind_index(s, k);
            assert(n[w].0 == k);
        }
        if has_kind(n, k) {
            let w = kind_index(n, k);
            assert(s[w].0 == k);
        }
        if k == t {
            assert(n[i].0 == k);
        }
    }
    assert forall|k: ModuleType| #[trigger] entries_map(n).dom().contains(k) implies entries_map(n)[k]
        == entries_map(s).insert(t, m)[k] by {
        let w = kind_index(n, k);
        lemma_kind_index(n, w);
        lemma_kind_index(s, w);
    }
    assert(entries_map(n) =~= entries_map(s).insert(t, m));
}

proof fn lemma_entries_map_push<M>(s: Seq<(ModuleType, M)>, t: ModuleType, m: M)
    requires
        kinds_distinct(s),
        !has_kind(s, t),
    ensures
        kinds_distinct(s.push((t, m))),
        entries_map(s.push((t, m))) == entries_map(s).insert(t, m),
{
    let n = s.push((t, m));
    assert forall|i: int, j: int| 0 <= i < j < n.len() implies #[trigger] n[i].0 != #[trigger] n[j].0 by {
        if j == s.len() {
            assert(s[i].0 != t);
        }
    }
    assert forall|k: ModuleType| #[trigger] has_kind(n, k) == (has_kind(s, k) || k == t) by {
        if has_kind(s, k) {
            let w = kind_index(s, k);
            assert(n[w].0 == k);
        }
        if has_kind(n, k) {
            let w = kind_index(n, k);
            if w < s.len() {
                assert(s[w].0 == k);
            }
        }
        if k == t {
            assert(n[s.len() as int].0 == k);
        }
    }
    assert forall|k: ModuleType| #[trigger] entries_map(n).dom().contains(k) implies entries_map(n)[k]
        == entries_map(s).insert(t, m)[k] by {
        let w = kind_index(n, k);
        lemma_kind_index(n, w);
        if w < s.len() {
            lemma_kind_index(s, w);
        }
    }
    assert(entries_map(n) =~= entries_map(s).insert(t, m));
}

/// Where the entry of kind `t` is kept in `modules`, if there is one.
fn position<M>(modules: &Vec<(ModuleType, M)>, t: ModuleType) -> (r: Option<usize>)
    ensures
        match r {
            Some(i) => i < modules@.len() && modules@[i as int].0 == t,
            None => !has_kind(modules@, t),
        },
{
    let mut i: usize = 0;
    while i < modules.len()
        invariant
            i <= modules@.len(),
            forall|k: int| 0 <= k < i ==> modules@[k].0 != t,
        decreases modules.len() - i,
    {
        if modules[i].0 == t {
            return Some(i);
        }
        i += 1;
    }
    None
}

impl<M> View for ModuleManager<M> {
    type V = Map<ModuleType, M>;

    closed spec fn view(&self) -> Map<ModuleType, M> {
        entries_map(self.modules@)
    }
}

impl<M> ModuleManager<M> {
    #[verifier::type_invariant]
    closed spec fn wf(self) -> bool {
        kinds_distinct(self.modules@)
    }

    /// A manager with no module enabled.
    pub fn new() -> (r: Self)
        ensures
            r@ == Map::<ModuleType, M>::empty(),
    {
        let r = ModuleManager { modules: Vec::new() };
        assert(r@ =~= Map::<ModuleType, M>::empty());
        r
    }

    /// Whether a module of kind `t` is enabled.
    pub fn contains(&self, t: ModuleType) -> (r: bool)
        ensures
            r == self@.dom().contains(t),
    {
        position(&self.modules, t).is_some()
    }

    /// The enabled module of kind `t`, if any.
    pub fn get(&self, t: ModuleType) -> (r: Option<&M>)
        ensures
            r == (if self@.dom().contains(t) { Some(&self@[t]) } else { None }),
    {
        proof {
            use_type_invariant(self);
        }
        match position(&self.modules, t) {
            Some(i) => {
                proof {
                    lemma_kind_index(self.modules@, i as int);
                }
                Some(&self.modules[i].1)
            },
            None => None,
        }
    }

    /// Keeps `module` as the module of kind `t`, in place of the one of that
    /// kind kept so far, which is handed back.
    pub fn enable(&mut self, t: ModuleType, module: M) -> (r: Option<M>)
        ensures
            final(self)@ == old(self)@.insert(t, module),
            r == (if old(self)@.dom().contains(t) { Some(old(self)@[t]) } else { None::<M> }),
    {
        proof {
            use_type_invariant(&*self);
        }
        let ghost before = self.modules@;
        let ghost m = module;
        let mut modules: Vec<(ModuleType, M)> = Vec::new();
        std::mem::swap(&mut modules, &mut self.modules);
        let replaced = match position(&modules, t) {
            Some(i) => {
                let (_, old_module) = modules.remove(i);
                modules.insert(i, (t, module));
                proof {
                    assert(modules@ =~= before.update(i as int, (t, m)));
                    lemma_kind_index(before, i as int);
                    lemma_entries_map_update(before, i as int, m);
                }
                Some(old_module)
            },
            None => {
                modules.push((t, module));
                proof {
                    lemma_entries_map_push(before, t, m);
                }
                None
            },
        };
        self.modules = modules;
        replaced
    }
}

impl<M> Default for ModuleManager<M> {
    fn default() -> (r: Self)
        ensures
            r@ == Map::<ModuleType, M>::empty(),
    {
        ModuleManager::new()
    }
}

} // verus!
