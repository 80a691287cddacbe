//! The function catalog: an in-memory, read-only store of function
//! configurations, keyed by function name.  It is filled once at startup
//! (the configuration file is parsed outside the library and handed in as
//! plain records) and only looked up afterwards.

use vstd::prelude::*;
use vstd::string::StringExecFns;

verus! {

/// The configuration of one function: its name, its file-system images
/// (paths relative to the catalog's image directories), how many users may
/// invoke it, its resource requirement and its per-function concurrency
/// limit, plus an optional snapshot directory to boot workers from.
pub struct FunctionConfig {
    pub name: String,
    pub runtimefs: String,
    pub appfs: String,
    pub users: u32,
    pub vcpus: u64,
    pub memory: usize,
    pub concurrency_limit: usize,
    pub load_dir: Option<String>,
}

impl Clone for FunctionConfig {
    fn clone(&self) -> (res: Self)
        ensures
            res == *self,
    {
        FunctionConfig {
            name: self.name.clone(),
            runtimefs: self.runtimefs.clone(),
            appfs: self.appfs.clone(),
            users: self.users,
            vcpus: self.vcpus,
            memory: self.memory,
            concurrency_limit: self.concurrency_limit,
            load_dir: match &self.load_dir {
                Some(d) => Some(d.clone()),
                None => None,
            },
        }
    }
}

impl Clone for Configuration {
    fn clone(&self) -> (res: Self)
        ensures
            res.configs@ == self.configs@,
            res.runtimefs_dir == self.runtimefs_dir,
            res.appfs_dir == self.appfs_dir,
            res.wf() == self.wf(),
    {
        let n = self.configs.len();
        let mut configs: Vec<FunctionConfig> = Vec::new();
        let mut i: usize = 0;
        while i < n
            invariant
                n == self.configs@.len(),
                0 <= i <= n,
                configs@.len() == i,
                forall|j: int| 0 <= j < i ==> configs@[j] == self.configs@[j],
            decreases n - i,
        {
            configs.push(self.configs[i].clone());
            i = i + 1;
        }
        proof {
            assert(configs@ =~= self.configs@);
        }
        Configuration {
            configs,
            runtimefs_dir: self.runtimefs_dir.clone(),
            appfs_dir: self.appfs_dir.clone(),
        }
    }
}

/// The catalog itself: the function records plus the directories that all
/// relative image paths are resolved against.
pub struct Configuration {
    pub configs: Vec<FunctionConfig>,
    pub runtimefs_dir: String,
    pub appfs_dir: String,
}

impl Configuration {
    /// Function names are unique: the store behaves as a map keyed by name.
    pub open spec fn wf(&self) -> bool {
        forall|i: int, j: int|
            0 <= i < j < self.configs@.len() ==> self.configs@[i].name@ != self.configs@[j].name@
    }

    /// Whether some record carries this function name.
    pub open spec fn contains_name(&self, name: Seq<char>) -> bool {
        exists|i: int| 0 <= i < self.configs@.len() && (#[trigger] self.configs@[i]).name@ == name
    }

    /// The index of the record with this name (unique when `wf()` holds).
    pub open spec fn index_of(&self, name: Seq<char>) -> int {
        choose|i: int| 0 <= i < self.configs@.len() && (#[trigger] self.configs@[i]).name@ == name
    }

    /// The record stored under this name.
    pub open spec fn spec_get(&self, name: Seq<char>) -> FunctionConfig {
        self.configs@[self.index_of(name)]
    }

    /// An empty catalog resolving image paths against the two given
    /// directories.  The records themselves are added with `insert`.
    pub fn new(runtimefs_dir: String, appfs_dir: String) -> (c: Configuration)
        ensures
            c.wf(),
            c.configs@.len() == 0,
            c.runtimefs_dir == runtimefs_dir,
            c.appfs_dir == appfs_dir,
    {
        Configuration { configs: Vec::new(), runtimefs_dir, appfs_dir }
    }

    /// The index of the record named `name`, or none if the catalog has no
    /// such function.
    pub fn find(&self, name: &String) -> (r: Option<usize>)
        ensures
            match r {
                Some(i) => i < self.configs@.len() && self.configs@[i as int].name@ == name@,
                None => !self.contains_name(name@),
            },
    {
        let n = self.configs.len();
        let mut i: usize = 0;
        while i < n
            invariant
                n == self.configs@.len(),
                0 <= i <= n,
                forall|j: int| 0 <= j < i ==> (#[trigger] self.configs@[j]).name@ != name@,
            decreases n - i,
        {
            if self.configs[i].name.eq(name) {
                return Some(i);
            }
            i = i + 1;
        }
        None
    }

    /// Store a record under its name, replacing any existing record with the
    /// same name.
    pub fn insert(&mut self, config: FunctionConfig)
        requires
            old(self).wf(),
        ensures
            final(self).wf(),
            final(self).runtimefs_dir == old(self).runtimefs_dir,
            final(self).appfs_dir == old(self).appfs_dir,
            final(self).contains_name(config.name@),
            final(self).spec_get(config.name@) == config,
            old(self).contains_name(config.name@) ==> final(self).configs@ == old(
                self,
            ).configs@.update(old(self).index_of(config.name@), config),
            !old(self).contains_name(config.name@) ==> final(self).configs@ == old(
                self,
            ).configs@.push(config),
    {
        match self.find(&config.name) {
            Some(i) => {
                proof {
                    let j = self.index_of(config.name@);
                    assert(self.configs@[j].name@ == config.name@);
                    assert(j == i);
                }
                let ghost nm = config.name@;
                self.configs.set(i, config);
                proof {
                    assert(self.configs@[i as int].name@ == nm);
                    let k = self.index_of(nm);
                    assert(0 <= k < self.configs@.len() && self.configs@[k].name@ == nm);
                    assert(k == i);
                }
            },
            None => {
                let ghost nm = config.name@;
                self.configs.push(config);
                proof {
                    assert(self.configs@[self.configs@.len() - 1].name@ == nm);
                    let k = self.index_of(nm);
                    assert(0 <= k < self.configs@.len() && self.configs@[k].name@ == nm);
                    assert(k == self.configs@.len() - 1);
                }
            },
        }
    }

    /// Join a directory and a relative path with a separator.
    fn join_path(dir: &String, file: &String) -> (r: String)
        ensures
            r@ == dir@ + seq!['/'] + file@,
    {
        proof {
            reveal_strlit("/");
        }
        let mut s = dir.clone();
        s.append("/");
        s.append(file.as_str());
        proof {
            assert(s@ =~= dir@ + seq!['/'] + file@);
        }
        s
    }

    /// Look a function up by name.  The returned record is a copy whose
    /// image paths are resolved against the catalog's directories.
    pub fn get(&self, name: &String) -> (r: Option<FunctionConfig>)
        requires
            self.wf(),
        ensures
            match r {
                Some(c) => {
                    &&& self.contains_name(name@)
                    &&& c.name == self.spec_get(name@).name
                    &&& c.runtimefs@ == self.runtimefs_dir@ + seq!['/'] + self.spec_get(
                        name@,
                    ).runtimefs@
                    &&& c.appfs@ == self.appfs_dir@ + seq!['/'] + self.spec_get(name@).appfs@
                    &&& c.users == self.spec_get(name@).users
                    &&& c.vcpus == self.spec_get(name@).vcpus
                    &&& c.memory == self.spec_get(name@).memory
                    &&& c.concurrency_limit == self.spec_get(name@).concurrency_limit
                    &&& c.load_dir == self.spec_get(name@).load_dir
                },
                None => !self.contains_name(name@),
            },
    {
        match self.find(name) {
            Some(i) => {
                proof {
                    let j = self.index_of(name@);
                    assert(self.configs@[j].name@ == name@);
                    assert(j == i);
                }
                let c = &self.configs[i];
                Some(
                    FunctionConfig {
                        name: c.name.clone(),
                        runtimefs: Self::join_path(&self.runtimefs_dir, &c.runtimefs),
                        appfs: Self::join_path(&self.appfs_dir, &c.appfs),
                        users: c.users,
                        vcpus: c.vcpus,
                        memory: c.memory,
                        concurrency_limit: c.concurrency_limit,
                        load_dir: match &c.load_dir {
                            Some(d) => Some(d.clone()),
                            None => None,
                        },
                    },
                )
            },
            None => None,
        }
    }

    /// How many functions the catalog holds.
    pub fn num_func(&self) -> (r: usize)
        ensures
            r == self.configs@.len(),
    {
        self.configs.len()
    }

    /// Whether a function with this name exists in the catalog.
    pub fn exist(&self, name: &String) -> (r: bool)
        ensures
            r == self.contains_name(name@),
    {
        self.find(name).is_some()
    }

    /// The resource requirement (vCPU count and memory in MB) of the
    /// function with this name.
    pub fn resource_req(&self, name: &String) -> (r: Option<(u64, usize)>)
        requires
            self.wf(),
        ensures
            match r {
                Some(req) => self.contains_name(name@) && req == (
                    self.spec_get(name@).vcpus,
                    self.spec_get(name@).memory,
                ),
                None => !self.contains_name(name@),
            },
    {
        match self.find(name) {
            Some(i) => {
                proof {
                    let j = self.index_of(name@);
                    assert(self.configs@[j].name@ == name@);
                    assert(j == i);
                }
                Some((self.configs[i].vcpus, self.configs[i].memory))
            },
            None => None,
        }
    }
}

} // verus!
