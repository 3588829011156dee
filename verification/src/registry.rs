//! The desktop application registry: a mapping from exec key to application
//! metadata, rebuilt from the installed desktop entries every tick, with a
//! deterministic choice among descriptors competing for one key.

use vstd::prelude::*;
use vstd::slice::slice_to_vec;
use crate::bytes::{
    lower, rindex_of, rfind_byte, subrange_vec, dedup_spec, dedup_strings, starts_with,
    starts_with_exec, contains_string, bytes_eq, lex_le, lex_le_exec, lemma_dv,
};
use crate::keys::{
    norm_key_spec, normalize_exec_key, candidate_keys_spec, exec_candidate_keys,
    primary_keys_spec, exec_primary_keys,
};


verus! {

// ---------------------------------------------------------------------------
// Descriptors and metadata
// ---------------------------------------------------------------------------
/// What one installed desktop entry provides, as plain values.
pub struct DesktopEntryInfo {
    /// The desktop-entry id (its file name without directories).
    pub id: Vec<u8>,
    /// The localized display name.
    pub name: Vec<u8>,
    /// An icon reference (a name or path), carried through unread.
    pub icon: Option<Vec<u8>>,
    /// The raw `Exec=` value.
    pub exec_value: Option<Vec<u8>>,
    /// The `StartupWMClass` value.
    pub wm_class: Option<Vec<u8>>,
    /// The declared MIME types.
    pub mime_types: Vec<Vec<u8>>,
    /// The path of the `.desktop` file itself.
    pub path: Option<Vec<u8>>,
}

/// Ghost image of a descriptor.
pub ghost struct EntryView {
    pub id: Seq<u8>,
    pub name: Seq<u8>,
    pub icon: Option<Seq<u8>>,
    pub exec_value: Option<Seq<u8>>,
    pub wm_class: Option<Seq<u8>>,
    pub mime_types: Seq<Seq<u8>>,
    pub path: Option<Seq<u8>>,
}

impl View for DesktopEntryInfo {
    type V = EntryView;

    open spec fn view(&self) -> EntryView {
        EntryView {
            id: self.id@,
            name: self.name@,
            icon: match self.icon {
                Some(v) => Some(v@),
                None => None,
            },
            exec_value: match self.exec_value {
                Some(v) => Some(v@),
                None => None,
            },
            wm_class: match self.wm_class {
                Some(v) => Some(v@),
                None => None,
            },
            mime_types: self.mime_types.deep_view(),
            path: match self.path {
                Some(v) => Some(v@),
                None => None,
            },
        }
    }
}

impl DeepView for DesktopEntryInfo {
    type V = EntryView;

    open spec fn deep_view(&self) -> EntryView {
        self.view()
    }
}

/// The metadata the registry binds to an exec key.
pub struct DesktopAppMeta {
    /// The normalized application id.
    pub app_id: Vec<u8>,
    /// The display name.
    pub name: Vec<u8>,
    /// An icon reference, carried through unread.
    pub icon: Option<Vec<u8>>,
    /// High-confidence keys of this application.
    pub primary_exec_keys: Vec<Vec<u8>>,
    /// The raw desktop-entry id, for indirect launching.
    pub desktop_entry_id: Option<Vec<u8>>,
    /// The `.desktop` file path, for direct launching.
    pub desktop_entry_path: Option<Vec<u8>>,
    /// The raw `Exec=` value, for a shell fallback launch.
    pub exec_command: Option<Vec<u8>>,
}

/// Ghost image of a bound metadata record.
pub ghost struct MetaView {
    pub app_id: Seq<u8>,
    pub name: Seq<u8>,
    pub icon: Option<Seq<u8>>,
    pub primary_exec_keys: Seq<Seq<u8>>,
    pub desktop_entry_id: Option<Seq<u8>>,
    pub desktop_entry_path: Option<Seq<u8>>,
    pub exec_command: Option<Seq<u8>>,
}

impl View for DesktopAppMeta {
    type V = MetaView;

    open spec fn view(&self) -> MetaView {
        MetaView {
            app_id: self.app_id@,
            name: self.name@,
            icon: match self.icon {
                Some(v) => Some(v@),
                None => None,
            },
            primary_exec_keys: self.primary_exec_keys.deep_view(),
            desktop_entry_id: match self.desktop_entry_id {
                Some(v) => Some(v@),
                None => None,
            },
            desktop_entry_path: match self.desktop_entry_path {
                Some(v) => Some(v@),
                None => None,
            },
            exec_command: match self.exec_command {
                Some(v) => Some(v@),
                None => None,
            },
        }
    }
}

// ---------------------------------------------------------------------------
// Keys a descriptor competes for
// ---------------------------------------------------------------------------
/// The MIME subtype suffix: the part after the last `/`.
pub open spec fn mime_suffix_spec(m: Seq<u8>) -> Seq<u8> {
    match rindex_of(m, 47) {
        Some(i) => m.skip(i + 1),
        None => m,
    }
}

fn mime_suffix(m: &[u8]) -> (r: Vec<u8>)
    ensures
        r@ == mime_suffix_spec(m@),
{
    let n = m.len();
    match rfind_byte(m, 47) {
        Some(i) => {
            proof {
                assert(i < n);
                assert(m@.skip(i + 1) =~= m@.subrange(i + 1, m@.len() as int));
            }
            subrange_vec(m, i + 1, n)
        },
        None => slice_to_vec(m),
    }
}

/// Candidate keys of the MIME list from index `i` on.
pub open spec fn mime_keys_from(ms: Seq<Seq<u8>>, i: int) -> Seq<Seq<u8>>
    decreases ms.len() - i
        when 0 <= i <= ms.len()
{
    if i >= ms.len() {
        Seq::empty()
    } else {
        candidate_keys_spec(mime_suffix_spec(ms[i])) + mime_keys_from(ms, i + 1)
    }
}

/// A descriptor is usable when its id normalizes to a key.
pub open spec fn entry_valid(d: EntryView) -> bool {
    norm_key_spec(d.id).len() > 0
}

/// Every key a descriptor competes for, in derivation order, duplicates
/// removed: `Exec=` keys, the id key, window-class keys, MIME-suffix keys.
pub open spec fn entry_candidates_spec(d: EntryView) -> Seq<Seq<u8>> {
    let exec_part = match d.exec_value {
        Some(e) => candidate_keys_spec(e),
        None => Seq::empty(),
    };
    let id_part = if norm_key_spec(d.id).len() > 0 {
        seq![norm_key_spec(d.id)]
    } else {
        Seq::empty()
    };
    let wm_part = match d.wm_class {
        Some(w) => candidate_keys_spec(w),
        None => Seq::empty(),
    };
    let mime_part = mime_keys_from(d.mime_types, 0);
    dedup_spec(exec_part + id_part + wm_part + mime_part)
}

/// The high-confidence keys of a descriptor: primary and candidate `Exec=`
/// keys, window-class keys and MIME keys; the id key alone when those are
/// empty. Duplicates removed.
pub open spec fn entry_primary_spec(d: EntryView) -> Seq<Seq<u8>> {
    let exec_part = match d.exec_value {
        Some(e) => primary_keys_spec(e) + candidate_keys_spec(e),
        None => Seq::empty(),
    };
    let wm_part = match d.wm_class {
        Some(w) => candidate_keys_spec(w),
        None => Seq::empty(),
    };
    let mime_part = mime_keys_from(d.mime_types, 0);
    let all = dedup_spec(exec_part + wm_part + mime_part);
    if all.len() == 0 && norm_key_spec(d.id).len() > 0 {
        seq![norm_key_spec(d.id)]
    } else {
        all
    }
}

/// The metadata a usable descriptor yields.
pub open spec fn meta_of_spec(d: EntryView) -> MetaView {
    MetaView {
        app_id: norm_key_spec(d.id),
        name: d.name,
        icon: d.icon,
        primary_exec_keys: entry_primary_spec(d),
        desktop_entry_id: Some(d.id),
        desktop_entry_path: d.path,
        exec_command: d.exec_value,
    }
}

pub(crate) fn push_all(dst: &mut Vec<Vec<u8>>, src: Vec<Vec<u8>>)
    ensures
        final(dst).deep_view() == old(dst).deep_view() + src.deep_view(),
{
    let ghost sv = src.deep_view();
    proof {
        lemma_dv(&src);
    }
    let mut i: usize = 0;
    while i < src.len()
        invariant
            i <= sv.len(),
            sv == src.deep_view(),
            sv.len() == src@.len(),
            forall|k: int| 0 <= k < sv.len() ==> #[trigger] sv[k] == src@[k]@,
            dst.deep_view() == old(dst).deep_view() + sv.take(i as int),
        decreases src.len() - i,
    {
        let item = src[i].clone();
        proof {
            assert(item@ == sv[i as int]);
        }
        dst.push(item);
        proof {
            lemma_dv(dst);
            assert(old(dst).deep_view() + sv.take(i + 1) =~~= (old(dst).deep_view() + sv.take(
                i as int,
            )).push(sv[i as int]));
            assert(dst.deep_view() =~~= old(dst).deep_view() + sv.take(i + 1));
        }
        i = i + 1;
    }
    proof {
        assert(sv.take(sv.len() as int) =~= sv);
    }
}

/// The concatenation that [`entry_candidates_spec`] removes duplicates from.
pub open spec fn entry_candidates_raw(d: EntryView) -> Seq<Seq<u8>> {
    let exec_part = match d.exec_value {
        Some(e) => candidate_keys_spec(e),
        None => Seq::empty(),
    };
    let id_part = if norm_key_spec(d.id).len() > 0 {
        seq![norm_key_spec(d.id)]
    } else {
        Seq::empty()
    };
    let wm_part = match d.wm_class {
        Some(w) => candidate_keys_spec(w),
        None => Seq::empty(),
    };
    exec_part + id_part + wm_part + mime_keys_from(d.mime_types, 0)
}

/// See [`entry_candidates_spec`].
pub fn entry_candidates(d: &DesktopEntryInfo) -> (r: Vec<Vec<u8>>)
    ensures
        r.deep_view() == entry_candidates_spec(d@),
{
    let ghost exec_part: Seq<Seq<u8>> = match d@.exec_value {
        Some(e) => candidate_keys_spec(e),
        None => Seq::empty(),
    };
    let ghost id_part: Seq<Seq<u8>> = if norm_key_spec(d@.id).len() > 0 {
        seq![norm_key_spec(d@.id)]
    } else {
        Seq::empty()
    };
    let ghost wm_part: Seq<Seq<u8>> = match d@.wm_class {
        Some(w) => candidate_keys_spec(w),
        None => Seq::empty(),
    };
    let mut all: Vec<Vec<u8>> = Vec::new();
    if let Some(e) = &d.exec_value {
        let ks = exec_candidate_keys(e.as_slice());
        push_all(&mut all, ks);
    }
    proof {
        assert(all.deep_view() =~~= exec_part);
    }
    if let Some(idk) = normalize_exec_key(d.id.as_slice()) {
        all.push(idk);
        proof {
            lemma_dv(&all);
        }
    }
    proof {
        assert(all.deep_view() =~~= exec_part + id_part);
    }
    if let Some(w) = &d.wm_class {
        let ks = exec_candidate_keys(w.as_slice());
        push_all(&mut all, ks);
    }
    proof {
        assert(all.deep_view() =~~= exec_part + id_part + wm_part);
    }
    let ghost before_mime = all.deep_view();
    let ghost mv = d@.mime_types;
    proof {
        lemma_dv(&d.mime_types);
    }
    let mut i: usize = 0;
    while i < d.mime_types.len()
        invariant
            i <= mv.len(),
            mv == d.mime_types.deep_view(),
            mv.len() == d.mime_types@.len(),
            forall|k: int| 0 <= k < mv.len() ==> #[trigger] mv[k] == d.mime_types@[k]@,
            before_mime + mime_keys_from(mv, 0) == all.deep_view() + mime_keys_from(mv, i as int),
        decreases d.mime_types.len() - i,
    {
        let suffix = mime_suffix(d.mime_types[i].as_slice());
        let ks = exec_candidate_keys(suffix.as_slice());
        let ghost ksv = ks.deep_view();
        push_all(&mut all, ks);
        proof {
            assert(mime_keys_from(mv, i as int) =~~= ksv + mime_keys_from(mv, i + 1));
            assert(all.deep_view() + mime_keys_from(mv, i + 1) =~~= before_mime + mime_keys_from(
                mv,
                0,
            ));
        }
        i = i + 1;
    }
    proof {
        assert(mime_keys_from(mv, mv.len() as int) =~~= Seq::<Seq<u8>>::empty());
        assert(all.deep_view() =~~= before_mime + mime_keys_from(mv, 0));
        assert(all.deep_view() =~~= entry_candidates_raw(d@));
    }
    dedup_strings(&all)
}


// ---------------------------------------------------------------------------
// Ranking among competing descriptors
// ---------------------------------------------------------------------------
/// Absolute difference of two lengths.
pub open spec fn abs_diff(a: int, b: int) -> int {
    if a >= b {
        a - b
    } else {
        b - a
    }
}

/// How well a descriptor's metadata fits a key: exact id match, then a
/// primary key, then a prefix relation between id and key, then the rest.
pub open spec fn rank_spec(key: Seq<u8>, m: MetaView) -> int {
    if m.app_id == key {
        0
    } else if m.primary_exec_keys.contains(key) {
        1
    } else if starts_with(m.app_id, key) || starts_with(key, m.app_id) {
        2
    } else {
        3
    }
}

/// The selection order for one key: lower rank first, then the id whose
/// length is closest to the key's, then the lexicographically first id.
pub open spec fn meta_le(key: Seq<u8>, a: MetaView, b: MetaView) -> bool {
    let ra = rank_spec(key, a);
    let rb = rank_spec(key, b);
    if ra != rb {
        ra < rb
    } else {
        let da = abs_diff(a.app_id.len() as int, key.len() as int);
        let db = abs_diff(b.app_id.len() as int, key.len() as int);
        if da != db {
            da < db
        } else {
            lex_le(a.app_id, b.app_id)
        }
    }
}

fn rank_exec(key: &[u8], m: &DesktopAppMeta) -> (r: u8)
    ensures
        r as int == rank_spec(key@, m@),
{
    if bytes_eq(m.app_id.as_slice(), key) {
        0
    } else if contains_string(&m.primary_exec_keys, key) {
        1
    } else if starts_with_exec(m.app_id.as_slice(), key) || starts_with_exec(
        key,
        m.app_id.as_slice(),
    ) {
        2
    } else {
        3
    }
}

fn meta_le_exec(key: &[u8], a: &DesktopAppMeta, b: &DesktopAppMeta) -> (r: bool)
    ensures
        r == meta_le(key@, a@, b@),
{
    let ra = rank_exec(key, a);
    let rb = rank_exec(key, b);
    if ra != rb {
        return ra < rb;
    }
    let la = a.app_id.len();
    let lb = b.app_id.len();
    let lk = key.len();
    let da = if la >= lk {
        la - lk
    } else {
        lk - la
    };
    let db = if lb >= lk {
        lb - lk
    } else {
        lk - lb
    };
    if da != db {
        return da < db;
    }
    lex_le_exec(a.app_id.as_slice(), b.app_id.as_slice())
}

/// See [`entry_primary_spec`].
fn entry_primary(d: &DesktopEntryInfo) -> (r: Vec<Vec<u8>>)
    ensures
        r.deep_view() == entry_primary_spec(d@),
{
    let ghost exec_part: Seq<Seq<u8>> = match d@.exec_value {
        Some(e) => primary_keys_spec(e) + candidate_keys_spec(e),
        None => Seq::empty(),
    };
    let ghost wm_part: Seq<Seq<u8>> = match d@.wm_class {
        Some(w) => candidate_keys_spec(w),
        None => Seq::empty(),
    };
    let mut all: Vec<Vec<u8>> = Vec::new();
    if let Some(e) = &d.exec_value {
        let ks = exec_primary_keys(e.as_slice());
        push_all(&mut all, ks);
        let ks2 = exec_candidate_keys(e.as_slice());
        push_all(&mut all, ks2);
    }
    proof {
        assert(all.deep_view() =~~= exec_part);
    }
    if let Some(w) = &d.wm_class {
        let ks = exec_candidate_keys(w.as_slice());
        push_all(&mut all, ks);
    }
    proof {
        assert(all.deep_view() =~~= exec_part + wm_part);
    }
    let ghost before_mime = all.deep_view();
    let ghost mv = d@.mime_types;
    proof {
        lemma_dv(&d.mime_types);
    }
    let mut i: usize = 0;
    while i < d.mime_types.len()
        invariant
            i <= mv.len(),
            mv == d.mime_types.deep_view(),
            mv.len() == d.mime_types@.len(),
            forall|k: int| 0 <= k < mv.len() ==> #[trigger] mv[k] == d.mime_types@[k]@,
            before_mime + mime_keys_from(mv, 0) == all.deep_view() + mime_keys_from(mv, i as int),
        decreases d.mime_types.len() - i,
    {
        let suffix = mime_suffix(d.mime_types[i].as_slice());
        let ks = exec_candidate_keys(suffix.as_slice());
        let ghost ksv = ks.deep_view();
        push_all(&mut all, ks);
        proof {
            assert(mime_keys_from(mv, i as int) =~~= ksv + mime_keys_from(mv, i + 1));
            assert(all.deep_view() + mime_keys_from(mv, i + 1) =~~= before_mime + mime_keys_from(
                mv,
                0,
            ));
        }
        i = i + 1;
    }
    proof {
        assert(mime_keys_from(mv, mv.len() as int) =~~= Seq::<Seq<u8>>::empty());
        assert(all.deep_view() =~~= before_mime + mime_keys_from(mv, 0));
    }
    let deduped = dedup_strings(&all);
    if deduped.len() == 0 {
        match normalize_exec_key(d.id.as_slice()) {
            Some(idk) => {
                let mut out: Vec<Vec<u8>> = Vec::new();
                out.push(idk);
                proof {
                    lemma_dv(&out);
                    assert(out.deep_view() =~~= entry_primary_spec(d@));
                }
                out
            },
            None => {
                proof {
                    assert(deduped.deep_view() =~~= entry_primary_spec(d@));
                }
                deduped
            },
        }
    } else {
        deduped
    }
}

/// See [`meta_of_spec`]; only a usable descriptor yields metadata.
pub fn meta_of_entry(d: &DesktopEntryInfo) -> (m: Option<DesktopAppMeta>)
    ensures
        match m {
            Some(meta) => entry_valid(d@) && meta@ == meta_of_spec(d@),
            None => !entry_valid(d@),
        },
{
    let app_id = match normalize_exec_key(d.id.as_slice()) {
        Some(k) => k,
        None => {
            return None;
        },
    };
    let primary = entry_primary(d);
    Some(
        DesktopAppMeta {
            app_id,
            name: d.name.clone(),
            icon: match &d.icon {
                Some(v) => Some(v.clone()),
                None => None,
            },
            primary_exec_keys: primary,
            desktop_entry_id: Some(d.id.clone()),
            desktop_entry_path: match &d.path {
                Some(v) => Some(v.clone()),
                None => None,
            },
            exec_command: match &d.exec_value {
                Some(v) => Some(v.clone()),
                None => None,
            },
        },
    )
}

// ---------------------------------------------------------------------------
// The registry itself
// ---------------------------------------------------------------------------
/// One key bound to one application's metadata.
pub struct RegistryEntry {
    pub key: Vec<u8>,
    pub meta: DesktopAppMeta,
}

/// Ghost image of a binding.
pub ghost struct RegistryEntryView {
    pub key: Seq<u8>,
    pub meta: MetaView,
}

impl View for RegistryEntry {
    type V = RegistryEntryView;

    open spec fn view(&self) -> RegistryEntryView {
        RegistryEntryView { key: self.key@, meta: self.meta@ }
    }
}

/// The exec-key registry: each key bound to exactly one application.
pub struct Registry {
    pub entries: Vec<RegistryEntry>,
}

impl Registry {
    /// Every key is bound at most once.
    pub open spec fn wf(&self) -> bool {
        forall|i: int, j: int|
            0 <= i < j < self.entries@.len() ==> self.entries@[i]@.key != self.entries@[j]@.key
    }

    /// The metadata bound to `key`, scanning in order (unique under `wf`).
    pub open spec fn lookup_from(&self, key: Seq<u8>, i: int) -> Option<MetaView>
        decreases self.entries@.len() - i
            when 0 <= i <= self.entries@.len()
    {
        if i >= self.entries@.len() {
            None
        } else if self.entries@[i]@.key == key {
            Some(self.entries@[i]@.meta)
        } else {
            self.lookup_from(key, i + 1)
        }
    }

    pub open spec fn lookup_spec(&self, key: Seq<u8>) -> Option<MetaView> {
        self.lookup_from(key, 0)
    }

    /// An empty registry.
    pub fn new() -> (r: Registry)
        ensures
            r.wf(),
            r.entries@.len() == 0,
    {
        Registry { entries: Vec::new() }
    }

    /// See [`Registry::lookup_spec`].
    pub fn lookup(&self, key: &[u8]) -> (r: Option<&DesktopAppMeta>)
        ensures
            match r {
                Some(m) => self.lookup_spec(key@) == Some(m@),
                None => self.lookup_spec(key@) is None,
            },
    {
        let mut i: usize = 0;
        while i < self.entries.len()
            invariant
                i <= self.entries@.len(),
                self.lookup_spec(key@) == self.lookup_from(key@, i as int),
            decreases self.entries.len() - i,
        {
            if bytes_eq(self.entries[i].key.as_slice(), key) {
                return Some(&self.entries[i].meta);
            }
            i = i + 1;
        }
        None
    }

    /// The first metadata whose application id is `app_id`, if any
    /// descriptor resolved to it.
    pub fn meta_for_app_id(&self, app_id: &[u8]) -> (r: Option<&DesktopAppMeta>)
        ensures
            match r {
                Some(m) => m@.app_id == app_id@ && exists|i: int|
                    0 <= i < self.entries@.len() && self.entries@[i]@.meta == m@,
                None => forall|i: int|
                    0 <= i < self.entries@.len() ==> self.entries@[i]@.meta.app_id != app_id@,
            },
    {
        let mut i: usize = 0;
        while i < self.entries.len()
            invariant
                i <= self.entries@.len(),
                forall|j: int|
                    0 <= j < i ==> self.entries@[j]@.meta.app_id != app_id@,
            decreases self.entries.len() - i,
        {
            if bytes_eq(self.entries[i].meta.app_id.as_slice(), app_id) {
                return Some(&self.entries[i].meta);
            }
            i = i + 1;
        }
        None
    }
}

// ---------------------------------------------------------------------------
// Building the registry
// ---------------------------------------------------------------------------
/// Every candidate key of every usable descriptor, in order, with repeats.
pub open spec fn keys_raw(ds: Seq<EntryView>, i: int) -> Seq<Seq<u8>>
    decreases ds.len() - i
        when 0 <= i <= ds.len()
{
    if i >= ds.len() {
        Seq::empty()
    } else {
        let head: Seq<Seq<u8>> = if entry_valid(ds[i]) {
            entry_candidates_spec(ds[i])
        } else {
            Seq::empty()
        };
        head + keys_raw(ds, i + 1)
    }
}

/// The keys the registry binds, in first-appearance order.
pub open spec fn all_keys_spec(ds: Seq<EntryView>) -> Seq<Seq<u8>> {
    dedup_spec(keys_raw(ds, 0))
}

/// The winning metadata for one key, scanned over the descriptors from
/// index `i`: the first descriptor of each application id competes, and the
/// best of those under [`meta_le`] wins.
pub open spec fn scan_best(
    ds: Seq<EntryView>,
    key: Seq<u8>,
    i: int,
    seen: Seq<Seq<u8>>,
    best: Option<MetaView>,
) -> Option<MetaView>
    decreases ds.len() - i
        when 0 <= i <= ds.len()
{
    if i >= ds.len() {
        best
    } else {
        let d = ds[i];
        if entry_valid(d) && entry_candidates_spec(d).contains(key) {
            let m = meta_of_spec(d);
            if seen.contains(m.app_id) {
                scan_best(ds, key, i + 1, seen, best)
            } else {
                let nb = match best {
                    None => Some(m),
                    Some(b) => if meta_le(key, b, m) {
                        Some(b)
                    } else {
                        Some(m)
                    },
                };
                scan_best(ds, key, i + 1, seen.push(m.app_id), nb)
            }
        } else {
            scan_best(ds, key, i + 1, seen, best)
        }
    }
}

/// The application bound to `key` by a descriptor list.
pub open spec fn chosen_meta_spec(ds: Seq<EntryView>, key: Seq<u8>) -> Option<MetaView> {
    scan_best(ds, key, 0, Seq::empty(), None)
}

proof fn lemma_scan_best_some(
    ds: Seq<EntryView>,
    key: Seq<u8>,
    i: int,
    seen: Seq<Seq<u8>>,
    best: Option<MetaView>,
)
    requires
        0 <= i <= ds.len(),
        best is None ==> seen.len() == 0,
    ensures
        scan_best(ds, key, i, seen, best) is None ==> (best is None && forall|j: int|
            i <= j < ds.len() ==> !(entry_valid(ds[j]) && entry_candidates_spec(ds[j]).contains(
                key,
            ))),
    decreases ds.len() - i,
{
    if i < ds.len() {
        let d = ds[i];
        if entry_valid(d) && entry_candidates_spec(d).contains(key) {
            let m = meta_of_spec(d);
            if seen.contains(m.app_id) {
                lemma_scan_best_some(ds, key, i + 1, seen, best);
            } else {
                let nb = match best {
                    None => Some(m),
                    Some(b) => if meta_le(key, b, m) {
                        Some(b)
                    } else {
                        Some(m)
                    },
                };
                lemma_scan_best_some(ds, key, i + 1, seen.push(m.app_id), nb);
            }
        } else {
            lemma_scan_best_some(ds, key, i + 1, seen, best);
        }
    }
}

proof fn lemma_dedup_no_dup(s: Seq<Seq<u8>>)
    ensures
        forall|i: int, j: int|
            0 <= i < j < dedup_spec(s).len() ==> dedup_spec(s)[i] != dedup_spec(s)[j],
        forall|i: int| 0 <= i < dedup_spec(s).len() ==> s.contains(#[trigger] dedup_spec(s)[i]),
        forall|i: int| 0 <= i < s.len() ==> dedup_spec(s).contains(#[trigger] s[i]),
    decreases s.len(),
{
    if s.len() > 0 {
        lemma_dedup_no_dup(s.drop_last());
        let rest = dedup_spec(s.drop_last());
        assert forall|i: int| 0 <= i < rest.len() implies s.contains(#[trigger] rest[i]) by {
            assert(s.drop_last().contains(rest[i]));
            let w = choose|w: int| 0 <= w < s.drop_last().len() && s.drop_last()[w] == rest[i];
            assert(s[w] == rest[i]);
        }
        assert forall|i: int| 0 <= i < s.len() implies dedup_spec(s).contains(#[trigger] s[i]) by {
            if i < s.len() - 1 {
                assert(s.drop_last()[i] == s[i]);
                assert(rest.contains(s[i]));
                let w = choose|w: int| 0 <= w < rest.len() && rest[w] == s[i];
                if rest.contains(s.last()) {
                    assert(dedup_spec(s)[w] == s[i]);
                } else {
                    assert(dedup_spec(s)[w] == s[i]);
                }
            } else {
                if rest.contains(s.last()) {
                    let w = choose|w: int| 0 <= w < rest.len() && rest[w] == s.last();
                    assert(dedup_spec(s)[w] == s[i]);
                } else {
                    assert(dedup_spec(s).last() == s[i]);
                }
            }
        }
    }
}

/// Builds the registry from the installed descriptors: one entry per
/// distinct candidate key of any usable descriptor, in first-appearance
/// order, each bound to the best-ranked competing application.
pub fn build_registry(descriptors: &Vec<DesktopEntryInfo>) -> (r: Registry)
    ensures
        r.wf(),
        r.entries@.len() == all_keys_spec(descriptors.deep_view()).len(),
        forall|i: int|
            0 <= i < r.entries@.len() ==> #[trigger] r.entries@[i]@.key == all_keys_spec(
                descriptors.deep_view(),
            )[i],
        forall|i: int|
            0 <= i < r.entries@.len() ==> Some(#[trigger] r.entries@[i]@.meta) == chosen_meta_spec(
                descriptors.deep_view(),
                r.entries@[i]@.key,
            ),
{
    let ghost dsv = descriptors.deep_view();
    proof {
        assert(dsv.len() == descriptors@.len());
        assert forall|k: int| 0 <= k < dsv.len() implies #[trigger] dsv[k]
            == descriptors@[k]@ by {
        }
    }
    let mut keys_all: Vec<Vec<u8>> = Vec::new();
    let mut i: usize = 0;
    proof {
        assert(keys_all.deep_view() + keys_raw(dsv, 0) =~~= keys_raw(dsv, 0));
    }
    while i < descriptors.len()
        invariant
            i <= dsv.len(),
            dsv == descriptors.deep_view(),
            dsv.len() == descriptors@.len(),
            forall|k: int| 0 <= k < dsv.len() ==> #[trigger] dsv[k] == descriptors@[k]@,
            keys_raw(dsv, 0) == keys_all.deep_view() + keys_raw(dsv, i as int),
        decreases descriptors.len() - i,
    {
        let d = &descriptors[i];
        let valid = match normalize_exec_key(d.id.as_slice()) {
            Some(_) => true,
            None => false,
        };
        if valid {
            let cands = entry_candidates(d);
            let ghost cv = cands.deep_view();
            push_all(&mut keys_all, cands);
            proof {
                assert(entry_valid(dsv[i as int]));
                assert(keys_raw(dsv, i as int) =~~= cv + keys_raw(dsv, i + 1));
                assert(keys_all.deep_view() + keys_raw(dsv, i + 1) =~~= keys_raw(dsv, 0));
            }
        } else {
            proof {
                assert(!entry_valid(dsv[i as int]));
                assert(keys_raw(dsv, i as int) =~~= keys_raw(dsv, i + 1));
            }
        }
        i = i + 1;
    }
    proof {
        assert(keys_raw(dsv, dsv.len() as int) =~~= Seq::<Seq<u8>>::empty());
        assert(keys_all.deep_view() =~~= keys_raw(dsv, 0));
    }
    let keys = dedup_strings(&keys_all);
    let ghost kv = keys.deep_view();
    proof {
        lemma_dv(&keys);
        lemma_dedup_no_dup(keys_all.deep_view());
    }
    let mut entries: Vec<RegistryEntry> = Vec::new();
    let mut ki: usize = 0;
    while ki < keys.len()
        invariant
            ki <= kv.len(),
            kv == keys.deep_view(),
            kv == all_keys_spec(dsv),
            kv.len() == keys@.len(),
            forall|k: int| 0 <= k < kv.len() ==> #[trigger] kv[k] == keys@[k]@,
            forall|a: int, b: int| 0 <= a < b < kv.len() ==> kv[a] != kv[b],
            dsv == descriptors.deep_view(),
            dsv.len() == descriptors@.len(),
            forall|k: int| 0 <= k < dsv.len() ==> #[trigger] dsv[k] == descriptors@[k]@,
            entries@.len() == ki,
            forall|e: int| 0 <= e < ki ==> #[trigger] entries@[e]@.key == kv[e],
            forall|e: int|
                0 <= e < ki ==> Some(#[trigger] entries@[e]@.meta) == chosen_meta_spec(dsv, kv[e]),
        decreases keys.len() - ki,
    {
        let key = &keys[ki];
        let mut best: Option<DesktopAppMeta> = None;
        let mut seen: Vec<Vec<u8>> = Vec::new();
        let mut di: usize = 0;
        proof {
            assert(seen.deep_view() =~~= Seq::<Seq<u8>>::empty());
        }
        while di < descriptors.len()
            invariant
                di <= dsv.len(),
                dsv == descriptors.deep_view(),
                dsv.len() == descriptors@.len(),
                forall|k: int| 0 <= k < dsv.len() ==> #[trigger] dsv[k] == descriptors@[k]@,
                key@ == kv[ki as int],
                ki < kv.len(),
                kv == keys.deep_view(),
                best is None ==> seen.deep_view().len() == 0,
                chosen_meta_spec(dsv, key@) == scan_best(
                    dsv,
                    key@,
                    di as int,
                    seen.deep_view(),
                    match best {
                        Some(b) => Some(b@),
                        None => None,
                    },
                ),
            decreases descriptors.len() - di,
        {
            let d = &descriptors[di];
            let m_opt = meta_of_entry(d);
            match m_opt {
                Some(m) => {
                    let cands = entry_candidates(d);
                    if contains_string(&cands, key.as_slice()) {
                        if contains_string(&seen, m.app_id.as_slice()) {
                            proof {
                                assert(scan_best(
                                    dsv,
                                    key@,
                                    di as int,
                                    seen.deep_view(),
                                    match best {
                                        Some(b) => Some(b@),
                                        None => None,
                                    },
                                ) == scan_best(
                                    dsv,
                                    key@,
                                    di + 1,
                                    seen.deep_view(),
                                    match best {
                                        Some(b) => Some(b@),
                                        None => None,
                                    },
                                ));
                            }
                        } else {
                            let ghost old_seen = seen.deep_view();
                            let ghost old_best: Option<MetaView> = match &best {
                                Some(b) => Some(b@),
                                None => None,
                            };
                            seen.push(m.app_id.clone());
                            proof {
                                lemma_dv(&seen);
                                assert(seen.deep_view() =~~= old_seen.push(m@.app_id));
                            }
                            match best {
                                None => {
                                    best = Some(m);
                                },
                                Some(b) => {
                                    if meta_le_exec(key.as_slice(), &b, &m) {
                                        best = Some(b);
                                    } else {
                                        best = Some(m);
                                    }
                                },
                            }
                            proof {
                                assert(scan_best(dsv, key@, di as int, old_seen, old_best)
                                    == scan_best(
                                    dsv,
                                    key@,
                                    di + 1,
                                    seen.deep_view(),
                                    match best {
                                        Some(b) => Some(b@),
                                        None => None,
                                    },
                                ));
                            }
                        }
                    } else {
                        proof {
                            assert(!entry_candidates_spec(dsv[di as int]).contains(key@));
                        }
                    }
                },
                None => {
                    proof {
                        assert(!entry_valid(dsv[di as int]));
                    }
                },
            }
            di = di + 1;
        }
        match best {
            Some(m) => {
                entries.push(RegistryEntry { key: key.clone(), meta: m });
            },
            None => {
                proof {
                    lemma_scan_best_some(dsv, key@, dsv.len() as int, seen.deep_view(), None);
                    assert(chosen_meta_spec(dsv, key@) is None);
                    lemma_dedup_no_dup(keys_raw(dsv, 0));
                    assert(keys_raw(dsv, 0).contains(key@));
                    let w = choose|w: int|
                        0 <= w < keys_raw(dsv, 0).len() && keys_raw(dsv, 0)[w] == key@;
                    lemma_keys_raw_origin(dsv, 0, w);
                    assert(false);
                }
            },
        }
        ki = ki + 1;
    }
    Registry { entries }
}

/// Each raw key comes from some usable descriptor's candidate list.
proof fn lemma_keys_raw_origin(ds: Seq<EntryView>, i: int, w: int)
    requires
        0 <= i <= ds.len(),
        0 <= w < keys_raw(ds, i).len(),
    ensures
        exists|j: int|
            i <= j < ds.len() && entry_valid(ds[j]) && entry_candidates_spec(ds[j]).contains(
                keys_raw(ds, i)[w],
            ),
        chosen_meta_spec(ds, keys_raw(ds, i)[w]) is Some,
    decreases ds.len() - i,
{
    let head: Seq<Seq<u8>> = if entry_valid(ds[i]) {
        entry_candidates_spec(ds[i])
    } else {
        Seq::empty()
    };
    if w < head.len() {
        assert(keys_raw(ds, i)[w] == head[w]);
        assert(entry_candidates_spec(ds[i]).contains(head[w]));
    } else {
        lemma_keys_raw_origin(ds, i + 1, w - head.len());
        assert(keys_raw(ds, i)[w] == keys_raw(ds, i + 1)[w - head.len()]);
    }
    let key = keys_raw(ds, i)[w];
    let j = choose|j: int|
        i <= j < ds.len() && entry_valid(ds[j]) && entry_candidates_spec(ds[j]).contains(key);
    lemma_scan_best_not_none(ds, key, 0, Seq::empty(), None, j);
}

/// A competitor anywhere ahead keeps the scan from ending empty.
proof fn lemma_scan_best_not_none(
    ds: Seq<EntryView>,
    key: Seq<u8>,
    i: int,
    seen: Seq<Seq<u8>>,
    best: Option<MetaView>,
    j: int,
)
    requires
        0 <= i <= ds.len(),
        best is None ==> seen.len() == 0,
        i <= j < ds.len() || best is Some,
        i <= j < ds.len() ==> entry_valid(ds[j]) && entry_candidates_spec(ds[j]).contains(key),
    ensures
        scan_best(ds, key, i, seen, best) is Some,
    decreases ds.len() - i,
{
    if i < ds.len() {
        let d = ds[i];
        if entry_valid(d) && entry_candidates_spec(d).contains(key) {
            let m = meta_of_spec(d);
            if seen.contains(m.app_id) {
                assert(best is Some);
                lemma_scan_best_not_none(ds, key, i + 1, seen, best, j);
            } else {
                let nb = match best {
                    None => Some(m),
                    Some(b) => if meta_le(key, b, m) {
                        Some(b)
                    } else {
                        Some(m)
                    },
                };
                lemma_scan_best_not_none(ds, key, i + 1, seen.push(m.app_id), nb, j);
            }
        } else {
            if j == i {
                assert(false);
            }
            lemma_scan_best_not_none(ds, key, i + 1, seen, best, j);
        }
    }
}


} // verus!
