//! The config store: one record per container name, and the paths derived
//! from a name.
use vstd::prelude::*;
use crate::config::{read_record, ConfigModel, ContainerConfig};
use crate::error::DockError;

verus! {

/// What a store holds: its root directory and the configs, in no
/// particular order.
pub struct StoreModel {
    pub base: Seq<char>,
    pub configs: Seq<ConfigModel>,
}

/// No two configs share a name.
pub open spec fn names_unique(s: Seq<ConfigModel>) -> bool {
    forall|i: int, j: int|
        0 <= i < s.len() && 0 <= j < s.len() && i != j ==> #[trigger] s[i].name != #[trigger] s[j].name
}

/// Whether some config has this name.
pub open spec fn has_name(s: Seq<ConfigModel>, name: Seq<char>) -> bool {
    exists|i: int| 0 <= i < s.len() && #[trigger] s[i].name == name
}

/// The position of the config with this name (meaningful where `has`).
pub open spec fn index_of(s: Seq<ConfigModel>, name: Seq<char>) -> int {
    choose|i: int| 0 <= i < s.len() && #[trigger] s[i].name == name
}

/// The configs after saving `c`: the config of the same name is replaced,
/// or `c` is added.
pub open spec fn saved(s: Seq<ConfigModel>, c: ConfigModel) -> Seq<ConfigModel> {
    if has_name(s, c.name) {
        s.update(index_of(s, c.name), c)
    } else {
        s.push(c)
    }
}

/// The directory that holds a container's files.
pub open spec fn root_path(base: Seq<char>, name: Seq<char>) -> Seq<char> {
    base + "/containers/"@ + name
}

/// The file that holds a container's record.
pub open spec fn record_path(base: Seq<char>, name: Seq<char>) -> Seq<char> {
    base + "/configs/"@ + name + ".conf"@
}

/// The file that holds a container's output.
pub open spec fn log_path(base: Seq<char>, name: Seq<char>) -> Seq<char> {
    base + "/logs/"@ + name + ".log"@
}

pub proof fn lemma_index_of(s: Seq<ConfigModel>, i: int)
    requires
        names_unique(s),
        0 <= i < s.len(),
    ensures
        has_name(s, s[i].name),
        index_of(s, s[i].name) == i,
{
    assert(s[i].name == s[i].name);
}

pub proof fn lemma_saved_unique(s: Seq<ConfigModel>, c: ConfigModel)
    requires
        names_unique(s),
    ensures
        names_unique(saved(s, c)),
        has_name(saved(s, c), c.name),
        forall|n: Seq<char>| n != c.name ==> (has_name(saved(s, c), n) == has_name(s, n)),
{
    let t = saved(s, c);
    if has_name(s, c.name) {
        let k = index_of(s, c.name);
        assert(t[k].name == c.name);
        assert forall|n: Seq<char>| n != c.name implies (has_name(t, n) == has_name(s, n)) by {
            if has_name(s, n) {
                let i = choose|i: int| 0 <= i < s.len() && #[trigger] s[i].name == n;
                assert(t[i].name == n);
            }
            if has_name(t, n) {
                let i = choose|i: int| 0 <= i < t.len() && #[trigger] t[i].name == n;
                assert(s[i].name == n);
            }
        }
    } else {
        assert(t[s.len() as int].name == c.name);
        assert forall|n: Seq<char>| n != c.name implies (has_name(t, n) == has_name(s, n)) by {
            if has_name(s, n) {
                let i = choose|i: int| 0 <= i < s.len() && #[trigger] s[i].name == n;
                assert(t[i].name == n);
            }
            if has_name(t, n) {
                let i = choose|i: int| 0 <= i < t.len() && #[trigger] t[i].name == n;
                assert(s[i].name == n);
            }
        }
    }
}

/// The views of a list of configs.
pub open spec fn config_views(v: Seq<ContainerConfig>) -> Seq<ConfigModel> {
    v.map_values(|c: ContainerConfig| c@)
}

/// An in-memory image of the config store. The records themselves live on
/// disk, one per name, written from `ContainerConfig::to_record`.
pub struct Storage {
    base: String,
    configs: Vec<ContainerConfig>,
}

impl View for Storage {
    type V = StoreModel;

    closed spec fn view(&self) -> StoreModel {
        StoreModel { base: self.base@, configs: config_views(self.configs@) }
    }
}

impl Storage {
    /// The store's invariant: names are unique.
    pub open spec fn wf(&self) -> bool {
        names_unique(self@.configs)
    }

    /// An empty store rooted at `base`.
    pub fn new(base: String) -> (r: Storage)
        ensures
            r.wf(),
            r@.base == base@,
            r@.configs == Seq::<ConfigModel>::empty(),
    {
        let r = Storage { base, configs: Vec::new() };
        assert(r@.configs =~= Seq::<ConfigModel>::empty());
        r
    }

    /// The position of the config with this name.
    pub fn find(&self, name: &str) -> (r: Option<usize>)
        requires
            self.wf(),
        ensures
            r is None <==> !has_name(self@.configs, name@),
            r matches Some(i) ==> i == index_of(self@.configs, name@) && i < self@.configs.len(),
    {
        let mut i: usize = 0;
        while i < self.configs.len()
            invariant
                i <= self.configs@.len(),
                self.wf(),
                self@.configs.len() == self.configs@.len(),
                forall|j: int| 0 <= j < i ==> #[trigger] self@.configs[j].name != name@,
            decreases self.configs@.len() - i,
        {
            assert(self@.configs[i as int] == self.configs@[i as int]@);
            if crate::config::same_text(self.configs[i].name.as_str(), name) {
                proof { lemma_index_of(self@.configs, i as int); }
                return Some(i);
            }
            i = i + 1;
        }
        None
    }

    /// Whether a container of this name exists.
    pub fn container_exists(&self, name: &str) -> (r: bool)
        requires
            self.wf(),
        ensures
            r == has_name(self@.configs, name@),
    {
        self.find(name).is_some()
    }

    /// The config of this name; `NotFound` where there is none.
    pub fn load_config(&self, name: &str) -> (r: Result<ContainerConfig, DockError>)
        requires
            self.wf(),
        ensures
            r matches Ok(c) ==> has_name(self@.configs, name@)
                && c@ == self@.configs[index_of(self@.configs, name@)],
            r matches Err(e) ==> e == DockError::NotFound && !has_name(self@.configs, name@),
            r is Err <==> !has_name(self@.configs, name@),
    {
        match self.find(name) {
            Some(i) => {
                assert(self@.configs[i as int] == self.configs@[i as int]@);
                Ok(self.configs[i].duplicate())
            },
            None => Err(DockError::NotFound),
        }
    }

    /// Creates or overwrites the config of `c`'s name.
    pub fn save_config(&mut self, c: ContainerConfig)
        requires
            old(self).wf(),
        ensures
            final(self).wf(),
            final(self)@.base == old(self)@.base,
            final(self)@.configs == saved(old(self)@.configs, c@),
    {
        let ghost cv = c@;
        proof { lemma_saved_unique(self@.configs, cv); }
        match self.find(c.name.as_str()) {
            Some(i) => {
                self.configs.set(i, c);
                assert(self@.configs =~= saved(old(self)@.configs, cv));
            },
            None => {
                self.configs.push(c);
                assert(self@.configs =~= saved(old(self)@.configs, cv));
            },
        }
    }

    /// Removes the config of this name; `NotFound` where there is none.
    pub fn delete_config(&mut self, name: &str) -> (r: Result<(), DockError>)
        requires
            old(self).wf(),
        ensures
            final(self).wf(),
            final(self)@.base == old(self)@.base,
            r is Err <==> !has_name(old(self)@.configs, name@),
            r matches Err(e) ==> e == DockError::NotFound && final(self)@ == old(self)@,
            r is Ok ==> final(self)@.configs == old(self)@.configs.remove(
                index_of(old(self)@.configs, name@),
            ),
            !has_name(final(self)@.configs, name@),
    {
        match self.find(name) {
            Some(i) => {
                let ghost s = self@.configs;
                self.configs.remove(i);
                assert(self@.configs =~= s.remove(i as int));
                assert forall|a: int, b: int|
                    0 <= a < self@.configs.len() && 0 <= b < self@.configs.len() && a != b
                    implies #[trigger] self@.configs[a].name != #[trigger] self@.configs[b].name by {
                    let a2 = if a < i { a } else { a + 1 };
                    let b2 = if b < i { b } else { b + 1 };
                    assert(self@.configs[a] == s[a2]);
                    assert(self@.configs[b] == s[b2]);
                }
                proof {
                    if has_name(self@.configs, name@) {
                        let j = choose|j: int| 0 <= j < self@.configs.len() && #[trigger] self@.configs[j].name == name@;
                        let j2 = if j < i { j } else { j + 1 };
                        assert(self@.configs[j] == s[j2]);
                        assert(s[i as int].name == name@);
                    }
                }
                Ok(())
            },
            None => Err(DockError::NotFound),
        }
    }

    /// Copies of all configs.
    pub fn list_containers(&self) -> (r: Vec<ContainerConfig>)
        ensures
            config_views(r@) == self@.configs,
    {
        let mut r: Vec<ContainerConfig> = Vec::new();
        let mut i: usize = 0;
        while i < self.configs.len()
            invariant
                i <= self.configs@.len(),
                config_views(r@) == self@.configs.subrange(0, i as int),
                r@.len() == i,
                self@.configs.len() == self.configs@.len(),
            decreases self.configs@.len() - i,
        {
            assert(self@.configs[i as int] == self.configs@[i as int]@);
            let ghost before = r@;
            let d = self.configs[i].duplicate();
            r.push(d);
            assert(r@ == before.push(d));
            assert(config_views(r@)[i as int] == d@);
            assert(config_views(r@) =~= self@.configs.subrange(0, i + 1));
            i = i + 1;
        }
        assert(self@.configs.subrange(0, i as int) =~= self@.configs);
        r
    }

    /// Adds a record read from disk; `IOError` where the text is not a
    /// record or its name is already taken.
    pub fn load_record(&mut self, text: &str) -> (r: Result<(), DockError>)
        requires
            old(self).wf(),
        ensures
            final(self).wf(),
            final(self)@.base == old(self)@.base,
            r is Ok <==> (read_record(text@) matches Some(c) && !has_name(old(self)@.configs, c.name)),
            r matches Ok(_) ==> final(self)@.configs == old(self)@.configs.push(read_record(text@)->Some_0),
            r matches Err(e) ==> e == DockError::IOError && final(self)@ == old(self)@,
    {
        match ContainerConfig::from_record(text) {
            Some(c) => {
                if self.find(c.name.as_str()).is_some() {
                    return Err(DockError::IOError);
                }
                proof { lemma_saved_unique(self@.configs, c@); }
                self.configs.push(c);
                assert(self@.configs =~= old(self)@.configs.push(read_record(text@)->Some_0));
                Ok(())
            },
            None => Err(DockError::IOError),
        }
    }

    /// The directory that holds this container's files.
    pub fn filesystem_path(&self, name: &str) -> (r: String)
        ensures
            r@ == root_path(self@.base, name@),
    {
        let mut p = self.base.clone();
        p.append("/containers/");
        p.append(name);
        p
    }

    /// The file that holds this container's record.
    pub fn config_path(&self, name: &str) -> (r: String)
        ensures
            r@ == record_path(self@.base, name@),
    {
        let mut p = self.base.clone();
        p.append("/configs/");
        p.append(name);
        p.append(".conf");
        p
    }

    /// The file that holds this container's output.
    pub fn logs_path(&self, name: &str) -> (r: String)
        ensures
            r@ == log_path(self@.base, name@),
    {
        let mut p = self.base.clone();
        p.append("/logs/");
        p.append(name);
        p.append(".log");
        p
    }
}

} // verus!
