use vstd::prelude::*;

use crate::plugin::{PluginInfo, PluginType};

verus! {

/// Where the code of a plugin comes from.
#[derive(Clone, Debug)]
pub enum PluginSource {
    /// A dynamic library, by path.
    Local(String),
    /// A CLAP bundle, by path.
    Clap(String),
    /// A unit built into the host, with its module name where one is known.
    Builtin(Option<String>),
    Unknown,
}

/// A plugin ID and the path of its library.
#[derive(Clone, Debug)]
pub struct PathEntry {
    pub id: String,
    pub path: String,
}

/// The backend that a plugin folder's manifest declares.
#[derive(Clone, Debug)]
pub enum ManifestBackend {
    /// A dynamic library at `path`, with the description it gave when loaded, if it loaded.
    Local { path: String, info: Option<PluginInfo> },
    /// A unit built into the host.
    Builtin { module: String },
}

/// What a plugin folder's manifest declares.
#[derive(Clone, Debug)]
pub struct ManifestEntry {
    pub id: String,
    pub name: String,
    pub backend: ManifestBackend,
}

/// The path that `s` gives for `id`: its first entry with that ID.
pub open spec fn path_in(s: Seq<PathEntry>, id: Seq<char>) -> Option<Seq<char>>
    decreases s.len(),
{
    if s.len() == 0 {
        None
    } else if s[0].id@ == id {
        Some(s[0].path@)
    } else {
        path_in(s.drop_first(), id)
    }
}

/// The description that `s` gives for `id`: its first entry with that ID.
pub open spec fn info_in(s: Seq<PluginInfo>, id: Seq<char>) -> Option<PluginInfo>
    decreases s.len(),
{
    if s.len() == 0 {
        None
    } else if s[0].unique_id@ == id {
        Some(s[0])
    } else {
        info_in(s.drop_first(), id)
    }
}

/// The module name of a unit built into the host.
pub open spec fn builtin_module_spec(id: Seq<char>) -> Option<Seq<char>> {
    if id == "com.mydaw.simplesynth"@ {
        Some("simple_synth"@)
    } else if id == "com.mydaw.wavegenerator"@ {
        Some("wave_generator"@)
    } else if id == "com.mydaw.gainfader"@ {
        Some("gain_fader"@)
    } else if id == "com.mydaw.levelmeter"@ {
        Some("level_meter"@)
    } else {
        None
    }
}

/// What an optional string holds, as a view.
pub open spec fn opt_view(o: Option<String>) -> Option<Seq<char>> {
    match o {
        Some(s) => Some(s@),
        None => None,
    }
}

/// The library path for `id` after registering the first `k` manifests of `found` into an
/// empty registry: the last of them that declares a library for `id`.
pub open spec fn local_paths_of(found: Seq<ManifestEntry>, k: int, id: Seq<char>) -> Option<Seq<char>>
    decreases k,
{
    if k <= 0 {
        None
    } else {
        match found[k - 1].backend {
            ManifestBackend::Local { path, .. } => if found[k - 1].id@ == id {
                Some(path@)
            } else {
                local_paths_of(found, k - 1, id)
            },
            ManifestBackend::Builtin { .. } => local_paths_of(found, k - 1, id),
        }
    }
}

/// The description for `id` after registering the first `k` manifests of `found` into an
/// empty registry: from the last of them whose library for `id` loaded, under the
/// manifest's ID and name.
pub open spec fn known_of(found: Seq<ManifestEntry>, k: int, id: Seq<char>) -> Option<PluginInfo>
    decreases k,
{
    if k <= 0 {
        None
    } else {
        let e = found[k - 1];
        match e.backend {
            ManifestBackend::Local { info, .. } => if e.id@ == id && info.is_some() {
                Some(PluginInfo { unique_id: e.id, name: e.name, ..info.unwrap() })
            } else {
                known_of(found, k - 1, id)
            },
            ManifestBackend::Builtin { .. } => known_of(found, k - 1, id),
        }
    }
}

impl ManifestEntry {
    /// A field-by-field copy.
    pub fn duplicate(&self) -> (r: ManifestEntry)
        ensures
            r == *self,
    {
        let backend = match &self.backend {
            ManifestBackend::Local { path, info } => ManifestBackend::Local {
                path: path.clone(),
                info: match info {
                    Some(i) => Some(i.duplicate()),
                    None => None,
                },
            },
            ManifestBackend::Builtin { module } => ManifestBackend::Builtin { module: module.clone() },
        };
        ManifestEntry { id: self.id.clone(), name: self.name.clone(), backend }
    }
}

proof fn lemma_path_in_skip(s: Seq<PathEntry>, k: int, id: Seq<char>)
    requires
        0 <= k <= s.len(),
        forall|j: int| 0 <= j < k ==> s[j].id@ != id,
    ensures
        path_in(s, id) == path_in(s.subrange(k, s.len() as int), id),
    decreases k,
{
    if k > 0 {
        lemma_path_in_skip(s.drop_first(), k - 1, id);
        assert(s.drop_first().subrange(k - 1, s.len() - 1) =~= s.subrange(k, s.len() as int));
    } else {
        assert(s.subrange(0, s.len() as int) =~= s);
    }
}

proof fn lemma_info_in_skip(s: Seq<PluginInfo>, k: int, id: Seq<char>)
    requires
        0 <= k <= s.len(),
        forall|j: int| 0 <= j < k ==> s[j].unique_id@ != id,
    ensures
        info_in(s, id) == info_in(s.subrange(k, s.len() as int), id),
    decreases k,
{
    if k > 0 {
        lemma_info_in_skip(s.drop_first(), k - 1, id);
        assert(s.drop_first().subrange(k - 1, s.len() - 1) =~= s.subrange(k, s.len() as int));
    } else {
        assert(s.subrange(0, s.len() as int) =~= s);
    }
}

proof fn lemma_path_in_after_set(s: Seq<PathEntry>, k: int, e: PathEntry, id: Seq<char>)
    requires
        0 <= k < s.len(),
        s[k].id@ == e.id@,
        forall|j: int| 0 <= j < k ==> s[j].id@ != e.id@,
    ensures
        path_in(s.update(k, e), id) == if id == e.id@ { Some(e.path@) } else { path_in(s, id) },
    decreases k,
{
    assert(s.update(k, e)[0] == if k == 0 { e } else { s[0] });
    if k > 0 && s[0].id@ != id {
        lemma_path_in_after_set(s.drop_first(), k - 1, e, id);
        assert(s.update(k, e).drop_first() =~= s.drop_first().update(k - 1, e));
    } else if k == 0 {
        assert(s.update(k, e).drop_first() =~= s.drop_first());
    }
}

proof fn lemma_path_in_push(s: Seq<PathEntry>, e: PathEntry, id: Seq<char>)
    ensures
        path_in(s.push(e), id) == match path_in(s, id) {
            Some(p) => Some(p),
            None => if id == e.id@ { Some(e.path@) } else { None },
        },
    decreases s.len(),
{
    assert(s.push(e)[0] == if s.len() == 0 { e } else { s[0] });
    if s.len() > 0 {
        lemma_path_in_push(s.drop_first(), e, id);
        assert(s.push(e).drop_first() =~= s.drop_first().push(e));
        assert(s.push(e)[0] == s[0]);
    } else {
        assert(s.push(e).drop_first() =~= Seq::<PathEntry>::empty());
        reveal_with_fuel(path_in, 2);
    }
}

proof fn lemma_info_in_after_set(s: Seq<PluginInfo>, k: int, e: PluginInfo, id: Seq<char>)
    requires
        0 <= k < s.len(),
        s[k].unique_id@ == e.unique_id@,
        forall|j: int| 0 <= j < k ==> s[j].unique_id@ != e.unique_id@,
    ensures
        info_in(s.update(k, e), id) == if id == e.unique_id@ { Some(e) } else { info_in(s, id) },
    decreases k,
{
    assert(s.update(k, e)[0] == if k == 0 { e } else { s[0] });
    if k > 0 && s[0].unique_id@ != id {
        lemma_info_in_after_set(s.drop_first(), k - 1, e, id);
        assert(s.update(k, e).drop_first() =~= s.drop_first().update(k - 1, e));
    } else if k == 0 {
        assert(s.update(k, e).drop_first() =~= s.drop_first());
    }
}

proof fn lemma_info_in_push(s: Seq<PluginInfo>, e: PluginInfo, id: Seq<char>)
    ensures
        info_in(s.push(e), id) == match info_in(s, id) {
            Some(p) => Some(p),
            None => if id == e.unique_id@ { Some(e) } else { None },
        },
    decreases s.len(),
{
    assert(s.push(e)[0] == if s.len() == 0 { e } else { s[0] });
    if s.len() > 0 {
        lemma_info_in_push(s.drop_first(), e, id);
        assert(s.push(e).drop_first() =~= s.drop_first().push(e));
        assert(s.push(e)[0] == s[0]);
    } else {
        assert(s.push(e).drop_first() =~= Seq::<PluginInfo>::empty());
        reveal_with_fuel(info_in, 2);
    }
}

/// Position of the first entry of `s` with ID `id`.
fn find_path(s: &Vec<PathEntry>, id: &String) -> (r: Option<usize>)
    ensures
        match r {
            Some(k) => k < s@.len() && s@[k as int].id@ == id@ && path_in(s@, id@) == Some(s@[k as int].path@)
                && forall|j: int| 0 <= j < k ==> s@[j].id@ != id@,
            None => path_in(s@, id@).is_none(),
        },
{
    let mut k: usize = 0;
    while k < s.len()
        invariant
            k <= s@.len(),
            forall|j: int| 0 <= j < k ==> s@[j].id@ != id@,
        decreases s@.len() - k,
    {
        if s[k].id == *id {
            proof { lemma_path_in_skip(s@, k as int, id@); }
            return Some(k);
        }
        k += 1;
    }
    proof { lemma_path_in_skip(s@, k as int, id@); }
    None
}

/// Position of the first entry of `s` with ID `id`.
fn find_info(s: &Vec<PluginInfo>, id: &String) -> (r: Option<usize>)
    ensures
        match r {
            Some(k) => k < s@.len() && s@[k as int].unique_id@ == id@ && info_in(s@, id@) == Some(s@[k as int])
                && forall|j: int| 0 <= j < k ==> s@[j].unique_id@ != id@,
            None => info_in(s@, id@).is_none(),
        },
{
    let mut k: usize = 0;
    while k < s.len()
        invariant
            k <= s@.len(),
            forall|j: int| 0 <= j < k ==> s@[j].unique_id@ != id@,
        decreases s@.len() - k,
    {
        if s[k].unique_id == *id {
            proof { lemma_info_in_skip(s@, k as int, id@); }
            return Some(k);
        }
        k += 1;
    }
    proof { lemma_info_in_skip(s@, k as int, id@); }
    None
}

/// Sets the path of `e.id` to `e.path`.
fn put_path(s: &mut Vec<PathEntry>, e: PathEntry)
    ensures
        forall|id: Seq<char>| path_in(final(s)@, id) == if id == e.id@ { Some(e.path@) } else { path_in(old(s)@, id) },
{
    match find_path(s, &e.id) {
        Some(k) => {
            let ghost s0 = s@;
            let ghost ee = e;
            s.set(k, e);
            proof {
                assert forall|id: Seq<char>| path_in(s@, id) == if id == ee.id@ { Some(ee.path@) } else { path_in(s0, id) } by {
                    lemma_path_in_after_set(s0, k as int, ee, id);
                }
            }
        },
        None => {
            let ghost s0 = s@;
            let ghost ee = e;
            s.push(e);
            proof {
                assert forall|id: Seq<char>| path_in(s@, id) == if id == ee.id@ { Some(ee.path@) } else { path_in(s0, id) } by {
                    lemma_path_in_push(s0, ee, id);
                }
            }
        },
    }
}

/// Sets the description of `e.unique_id` to `e`.
fn put_info(s: &mut Vec<PluginInfo>, e: PluginInfo)
    ensures
        forall|id: Seq<char>| info_in(final(s)@, id) == if id == e.unique_id@ { Some(e) } else { info_in(old(s)@, id) },
{
    match find_info(s, &e.unique_id) {
        Some(k) => {
            let ghost s0 = s@;
            let ghost ee = e;
            s.set(k, e);
            proof {
                assert forall|id: Seq<char>| info_in(s@, id) == if id == ee.unique_id@ { Some(ee) } else { info_in(s0, id) } by {
                    lemma_info_in_after_set(s0, k as int, ee, id);
                }
            }
        },
        None => {
            let ghost s0 = s@;
            let ghost ee = e;
            s.push(e);
            proof {
                assert forall|id: Seq<char>| info_in(s@, id) == if id == ee.unique_id@ { Some(ee) } else { info_in(s0, id) } by {
                    lemma_info_in_push(s0, ee, id);
                }
            }
        },
    }
}

/// The registry of plugins that the host can construct, keyed by unique ID.
pub struct PluginManager {
    known_plugins: Vec<PluginInfo>,
    clap_paths: Vec<PathEntry>,
    local_paths: Vec<PathEntry>,
}

impl PluginManager {
    /// The description registered for `id`.
    pub closed spec fn known(&self, id: Seq<char>) -> Option<PluginInfo> {
        info_in(self.known_plugins@, id)
    }

    /// The dynamic-library path registered for `id`.
    pub closed spec fn local_path(&self, id: Seq<char>) -> Option<Seq<char>> {
        path_in(self.local_paths@, id)
    }

    /// The CLAP bundle path registered for `id`.
    pub closed spec fn clap_path(&self, id: Seq<char>) -> Option<Seq<char>> {
        path_in(self.clap_paths@, id)
    }

    /// Nothing is registered.
    pub open spec fn is_empty(&self) -> bool {
        forall|id: Seq<char>|
            #![trigger self.known(id)]
            #![trigger self.local_path(id)]
            #![trigger self.clap_path(id)]
            self.known(id).is_none() && self.local_path(id).is_none() && self.clap_path(id).is_none()
    }

    /// An empty registry; folders are scanned by the caller and handed to `rescan`.
    pub fn new() -> (r: PluginManager)
        ensures
            r.is_empty(),
    {
        PluginManager { known_plugins: Vec::new(), clap_paths: Vec::new(), local_paths: Vec::new() }
    }

    /// The module name of a unit built into the host.
    pub fn builtin_module_for_unique_id(unique_id: &str) -> (r: Option<String>)
        ensures
            opt_view(r) == builtin_module_spec(unique_id@),
    {
        let id = unique_id.to_owned();
        let simple_synth = "com.mydaw.simplesynth".to_owned();
        let wave_generator = "com.mydaw.wavegenerator".to_owned();
        let gain_fader = "com.mydaw.gainfader".to_owned();
        let level_meter = "com.mydaw.levelmeter".to_owned();
        if id == simple_synth {
            Some("simple_synth".to_owned())
        } else if id == wave_generator {
            Some("wave_generator".to_owned())
        } else if id == gain_fader {
            Some("gain_fader".to_owned())
        } else if id == level_meter {
            Some("level_meter".to_owned())
        } else {
            None
        }
    }

    /// Where the code of `unique_id` comes from: a library path first, then a CLAP path,
    /// then a built-in unit for a registered native plugin.
    pub fn get_plugin_source(&self, unique_id: &str) -> (r: PluginSource)
        ensures
            match self.local_path(unique_id@) {
                Some(p) => r matches PluginSource::Local(q) && q@ == p,
                None => match self.clap_path(unique_id@) {
                    Some(p) => r matches PluginSource::Clap(q) && q@ == p,
                    None => match self.known(unique_id@) {
                        Some(info) => if info.plugin_type == PluginType::Native {
                            r matches PluginSource::Builtin(m) && opt_view(m) == builtin_module_spec(unique_id@)
                        } else {
                            r matches PluginSource::Unknown
                        },
                        None => r matches PluginSource::Unknown,
                    },
                },
            },
    {
        let id = unique_id.to_owned();
        if let Some(k) = find_path(&self.local_paths, &id) {
            return PluginSource::Local(self.local_paths[k].path.clone());
        }
        if let Some(k) = find_path(&self.clap_paths, &id) {
            return PluginSource::Clap(self.clap_paths[k].path.clone());
        }
        if let Some(k) = find_info(&self.known_plugins, &id) {
            if self.known_plugins[k].plugin_type == PluginType::Native {
                return PluginSource::Builtin(Self::builtin_module_for_unique_id(unique_id));
            }
        }
        PluginSource::Unknown
    }

    /// The CLAP bundle path registered for `unique_id`.
    pub fn clap_path_of(&self, unique_id: &str) -> (r: Option<String>)
        ensures
            opt_view(r) == self.clap_path(unique_id@),
    {
        let id = unique_id.to_owned();
        match find_path(&self.clap_paths, &id) {
            Some(k) => Some(self.clap_paths[k].path.clone()),
            None => None,
        }
    }

    /// The dynamic-library path registered for `unique_id`.
    pub fn local_path_of(&self, unique_id: &str) -> (r: Option<String>)
        ensures
            opt_view(r) == self.local_path(unique_id@),
    {
        let id = unique_id.to_owned();
        match find_path(&self.local_paths, &id) {
            Some(k) => Some(self.local_paths[k].path.clone()),
            None => None,
        }
    }

    /// Registers what one manifest declares: a library path under the plugin's ID and, if
    /// the library loaded, its description under that ID and the manifest's name. A
    /// built-in unit is not constructed by the host and registers nothing.
    pub fn register_manifest(&mut self, entry: ManifestEntry)
        ensures
            forall|id: Seq<char>| #[trigger] final(self).clap_path(id) == old(self).clap_path(id),
            match entry.backend {
                ManifestBackend::Local { path, info } => {
                    &&& forall|id: Seq<char>| #[trigger] final(self).local_path(id) == if id == entry.id@ { Some(path@) } else { old(self).local_path(id) }
                    &&& forall|id: Seq<char>| #[trigger] final(self).known(id) == if id == entry.id@ && info.is_some() {
                        Some(PluginInfo { unique_id: entry.id, name: entry.name, ..info.unwrap() })
                    } else {
                        old(self).known(id)
                    }
                },
                ManifestBackend::Builtin { .. } => {
                    &&& forall|id: Seq<char>| #[trigger] final(self).local_path(id) == old(self).local_path(id)
                    &&& forall|id: Seq<char>| #[trigger] final(self).known(id) == old(self).known(id)
                },
            },
    {
        match entry.backend {
            ManifestBackend::Local { path, info } => {
                put_path(&mut self.local_paths, PathEntry { id: entry.id.clone(), path });
                if let Some(info) = info {
                    put_info(&mut self.known_plugins, PluginInfo { unique_id: entry.id, name: entry.name, ..info });
                }
            },
            ManifestBackend::Builtin { .. } => {},
        }
    }

    /// Registers a CLAP bundle at `path` with the description it gave when loaded.
    pub fn register_clap(&mut self, path: String, info: PluginInfo)
        ensures
            forall|id: Seq<char>| #[trigger] final(self).local_path(id) == old(self).local_path(id),
            forall|id: Seq<char>| #[trigger] final(self).clap_path(id) == if id == info.unique_id@ { Some(path@) } else { old(self).clap_path(id) },
            forall|id: Seq<char>| #[trigger] final(self).known(id) == if id == info.unique_id@ { Some(info) } else { old(self).known(id) },
    {
        put_path(&mut self.clap_paths, PathEntry { id: info.unique_id.clone(), path });
        put_info(&mut self.known_plugins, info);
    }

    /// Forgets everything and registers the manifests found by a fresh scan, in order.
    pub fn rescan(&mut self, found: Vec<ManifestEntry>)
        ensures
            forall|id: Seq<char>| #[trigger] final(self).clap_path(id).is_none(),
            forall|id: Seq<char>| #[trigger] final(self).local_path(id) == local_paths_of(found@, found@.len() as int, id),
            forall|id: Seq<char>| #[trigger] final(self).known(id) == known_of(found@, found@.len() as int, id),
    {
        self.known_plugins = Vec::new();
        self.clap_paths = Vec::new();
        self.local_paths = Vec::new();
        let mut k: usize = 0;
        while k < found.len()
            invariant
                k <= found@.len(),
                forall|id: Seq<char>| #[trigger] self.clap_path(id).is_none(),
                forall|id: Seq<char>| #[trigger] self.local_path(id) == local_paths_of(found@, k as int, id),
                forall|id: Seq<char>| #[trigger] self.known(id) == known_of(found@, k as int, id),
            decreases found@.len() - k,
        {
            self.register_manifest(found[k].duplicate());
            k += 1;
        }
    }

    /// The descriptions of all registered plugins: looking an ID up in the list gives
    /// what the registry holds for it.
    pub fn get_available_plugins(&self) -> (r: Vec<PluginInfo>)
        ensures
            forall|id: Seq<char>| #[trigger] info_in(r@, id) == self.known(id),
    {
        let mut r: Vec<PluginInfo> = Vec::new();
        let mut k: usize = 0;
        while k < self.known_plugins.len()
            invariant
                k <= self.known_plugins@.len(),
                r@ == self.known_plugins@.subrange(0, k as int),
            decreases self.known_plugins@.len() - k,
        {
            r.push(self.known_plugins[k].duplicate());
            assert(r@ =~= self.known_plugins@.subrange(0, k + 1));
            k += 1;
        }
        assert(self.known_plugins@.subrange(0, k as int) =~= self.known_plugins@);
        r
    }
}

} // verus!
