//! The post-processing modules available: external executables found in
//! the modules directory (one per module id, the highest version winning),
//! followed by the built-in nodes.
//!
//! The caller lists the directory, runs each executable with `--describe`
//! and reads its answer; which module is kept, and the order, are decided here.
use vstd::prelude::*;
use crate::assoc::{find_key, get_spec, key_index, keys_unique, lemma_key_index, lemma_put_unique, put, put_spec};
use crate::bundle::{ID_RECORDING_INPUT, ID_UNPACK};
use crate::community::{compare_spec, compare_versions};
use crate::pipeline::PortType;
use crate::queue::lemma_put_other;
use crate::sorting::{sort_by_key, sorted_by_key};

verus! {

/// What a module says of itself.
#[derive(Debug, Clone)]
pub struct ModuleInfo {
    pub id: String,
    pub name: String,
    pub version: String,
    pub description: String,
    pub input_types: Vec<PortType>,
    pub output_types: Vec<PortType>,
    /// The parameter definitions, as JSON text.
    pub params_json: String,
    /// Translations of its texts, as JSON text.
    pub i18n_json: Option<String>,
    /// Whether it comes from the project itself.
    pub official: bool,
    /// Whether its outputs may feed several nodes.
    pub reusable: bool,
    /// The executable (empty for a built-in node).
    pub exe_path: String,
}

/// A module described without port types takes and gives any file.
pub fn apply_port_defaults(info: &mut ModuleInfo)
    ensures
        old(info).input_types@.len() == 0 ==> final(info).input_types@ == seq![PortType::AnyFile],
        old(info).input_types@.len() > 0 ==> final(info).input_types@ == old(info).input_types@,
        old(info).output_types@.len() == 0 ==> final(info).output_types@ == seq![PortType::AnyFile],
        old(info).output_types@.len() > 0 ==> final(info).output_types@ == old(info).output_types@,
        final(info).id == old(info).id,
        final(info).version == old(info).version,
        final(info).exe_path == old(info).exe_path,
{
    if info.input_types.len() == 0 {
        info.input_types = vec![PortType::AnyFile];
    }
    if info.output_types.len() == 0 {
        info.output_types = vec![PortType::AnyFile];
    }
}

/// The modules found so far, by id.
#[derive(Debug, Clone)]
pub struct Discovered {
    pub by_id: Vec<(String, ModuleInfo)>,
}

impl Discovered {
    /// Each id is held once, under the module's own id.
    pub open spec fn wf(&self) -> bool {
        &&& keys_unique(self.by_id@)
        &&& forall|i: int| 0 <= i < self.by_id@.len() ==> (#[trigger] self.by_id@[i]).1.id@ == self.by_id@[i].0@
    }

    /// Nothing found yet.
    pub fn new() -> (r: Discovered)
        ensures
            r.wf(),
            r.by_id@.len() == 0,
    {
        Discovered { by_id: Vec::new() }
    }

    /// A module found at `exe_path`: it is kept unless a module with its id
    /// and a version at least as high was found before.
    pub fn offer(&mut self, info: ModuleInfo, exe_path: String) -> (kept: bool)
        requires
            old(self).wf(),
        ensures
            final(self).wf(),
            kept == (match get_spec(old(self).by_id@, info.id@) {
                Some(e) => compare_spec(e.version@, info.version@) < 0,
                None => true,
            }),
            kept ==> (get_spec(final(self).by_id@, info.id@) matches Some(m) && m.id == info.id && m.version == info.version
                && m.exe_path == exe_path && m.name == info.name && m.description == info.description
                && m.input_types == info.input_types && m.output_types == info.output_types),
            !kept ==> final(self).by_id@ == old(self).by_id@,
            forall|p: Seq<char>| p != info.id@ ==> get_spec(final(self).by_id@, p) == get_spec(old(self).by_id@, p),
    {
        proof {
            lemma_key_index(self.by_id@, info.id@);
        }
        let keep = match find_key(&self.by_id, info.id.as_str()) {
            Some(i) => compare_versions(self.by_id[i].1.version.as_str(), info.version.as_str()) < 0,
            None => true,
        };
        if keep {
            let k = info.id.clone();
            let m = ModuleInfo { exe_path, ..info };
            proof {
                lemma_put_unique(self.by_id@, k, m);
                assert forall|p: Seq<char>| p != k@ implies get_spec(put_spec(self.by_id@, k, m), p) == get_spec(self.by_id@, p) by {
                    lemma_put_other(self.by_id@, k, m, p);
                }
                lemma_key_index(self.by_id@, k@);
                let n = put_spec(self.by_id@, k, m);
                assert forall|i: int| 0 <= i < n.len() implies (#[trigger] n[i]).1.id@ == n[i].0@ by {
                    if i < self.by_id@.len() && i != key_index(self.by_id@, k@) {
                        assert(n[i] == self.by_id@[i]);
                    }
                }
            }
            put(&mut self.by_id, k, m);
        }
        keep
    }

    /// The modules found, ordered by id, followed by the built-in nodes.
    pub fn finish(self, builtins: Vec<ModuleInfo>) -> (r: Vec<ModuleInfo>)
        requires
            self.wf(),
        ensures
            exists|sorted: Seq<(String, ModuleInfo)>| {
                &&& sorted_by_key(sorted)
                &&& sorted.to_multiset() == self.by_id@.to_multiset()
                &&& r@ == sorted.map_values(|p: (String, ModuleInfo)| p.1) + builtins@
            },
    {
        let sorted = sort_by_key(self.by_id);
        let ghost s = sorted@;
        let mut r: Vec<ModuleInfo> = Vec::new();
        let mut rev = crate::recordings::reversed(sorted);
        let n = rev.len();
        let mut k: usize = 0;
        while rev.len() > 0
            invariant
                k + rev@.len() == n,
                n == s.len(),
                rev@ == s.subrange(k as int, n as int).reverse(),
                r@ == s.subrange(0, k as int).map_values(|p: (String, ModuleInfo)| p.1),
            decreases rev.len(),
        {
            let x = rev.pop().unwrap();
            proof {
                assert(x == s[k as int]);
                assert(rev@ =~= s.subrange(k + 1, n as int).reverse());
            }
            r.push(x.1);
            assert(r@ =~= s.subrange(0, k + 1).map_values(|p: (String, ModuleInfo)| p.1));
            k += 1;
        }
        assert(s.subrange(0, n as int) =~= s);
        let ghost head = r@;
        let mut b = builtins;
        r.append(&mut b);
        assert(r@ =~= head + builtins@);
        r
    }
}

/// A translated text when one was found, otherwise the default.
pub fn text_or(found: Option<String>, default: &str) -> (r: String)
    ensures
        found matches Some(f) ==> r@ == f@,
        found is None ==> r@ == default@,
{
    match found {
        Some(f) => f,
        None => default.to_owned(),
    }
}

/// The built-in nodes, with their (translated) names and descriptions:
/// the recording input (no input, a segment directory out) and the
/// unpacking of a media bundle (a bundle in, a video and an image out).
pub fn builtin_module_infos(ri_name: String, ri_desc: String, unpack_name: String, unpack_desc: String) -> (r: Vec<ModuleInfo>)
    ensures
        r@.len() == 2,
        r@[0].id@ == ID_RECORDING_INPUT@,
        r@[0].name == ri_name && r@[0].description == ri_desc,
        r@[0].version@.len() == 0,
        r@[0].input_types@.len() == 0,
        r@[0].output_types@ == seq![PortType::TsSessionDir],
        !r@[0].official && !r@[0].reusable,
        r@[1].id@ == ID_UNPACK@,
        r@[1].name == unpack_name && r@[1].description == unpack_desc,
        r@[1].version@.len() == 0,
        r@[1].input_types@ == seq![PortType::MediaBundle],
        r@[1].output_types@ == seq![PortType::VideoFile, PortType::ImageFile],
        r@[1].official && r@[1].reusable,
        r@[0].exe_path@.len() == 0 && r@[1].exe_path@.len() == 0,
{
    proof {
        reveal_strlit("[]");
    }
    let ri = ModuleInfo {
        id: ID_RECORDING_INPUT.to_owned(),
        name: ri_name,
        version: String::new(),
        description: ri_desc,
        input_types: Vec::new(),
        output_types: vec![PortType::TsSessionDir],
        params_json: "[]".to_owned(),
        i18n_json: None,
        official: false,
        reusable: false,
        exe_path: String::new(),
    };
    let unpack = ModuleInfo {
        id: ID_UNPACK.to_owned(),
        name: unpack_name,
        version: String::new(),
        description: unpack_desc,
        input_types: vec![PortType::MediaBundle],
        output_types: vec![PortType::VideoFile, PortType::ImageFile],
        params_json: "[]".to_owned(),
        i18n_json: None,
        official: true,
        reusable: true,
        exe_path: String::new(),
    };
    let mut r: Vec<ModuleInfo> = Vec::new();
    r.push(ri);
    r.push(unpack);
    r
}

} // verus!
