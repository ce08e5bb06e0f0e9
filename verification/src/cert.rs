//! The certificate index: which certificates are managed, under which stable ids,
//! and which one is active.

use vstd::prelude::*;

use crate::text::{decimal, push_char, push_decimal};

verus! {

/// One managed certificate.
#[derive(Debug)]
pub struct Certificate {
    pub id: u32,
    pub name: String,
    pub active: bool,
}

/// What a certificate is, as the contracts speak of it.
pub struct CertView {
    pub id: u32,
    pub name: Seq<char>,
    pub active: bool,
}

impl View for Certificate {
    type V = CertView;

    open spec fn view(&self) -> CertView {
        CertView { id: self.id, name: self.name@, active: self.active }
    }
}

/// The views of a sequence of certificates, in order.
pub open spec fn cert_views(certs: Seq<Certificate>) -> Seq<CertView> {
    certs.map_values(|c: Certificate| c@)
}

/// `c` with its activity set to `active`.
pub open spec fn with_active(c: CertView, active: bool) -> CertView {
    CertView { id: c.id, name: c.name, active }
}

impl Certificate {
    /// A copy of this certificate.
    pub fn copy(&self) -> (c: Certificate)
        ensures
            c@ == self@,
    {
        Certificate { id: self.id, name: self.name.clone(), active: self.active }
    }
}

/// Why an operation on the index was refused.
#[derive(Debug, Clone, Copy, PartialEq, Eq, Structural)]
pub enum CertError {
    /// No certificate carries the requested id.
    NotFound,
    /// The chosen path names no file.
    NoFileName,
}

/// The text that describes an error.
pub open spec fn error_text(e: CertError) -> Seq<char> {
    match e {
        CertError::NotFound => "certificate id not found"@,
        CertError::NoFileName => "path has no file name"@,
    }
}

impl CertError {
    /// The text that describes this error.
    pub fn message(&self) -> (m: String)
        ensures
            m@ == error_text(*self),
    {
        match self {
            CertError::NotFound => String::from_str("certificate id not found"),
            CertError::NoFileName => String::from_str("path has no file name"),
        }
    }
}

/// The bookkeeping of all managed certificates: the last id handed out and the
/// certificates in the order they were added.
pub struct Index {
    next_id: u32,
    certs: Vec<Certificate>,
}

/// What an index is, as the contracts speak of it.
pub struct IndexView {
    pub next_id: u32,
    pub certs: Seq<CertView>,
}

impl View for Index {
    type V = IndexView;

    closed spec fn view(&self) -> IndexView {
        IndexView { next_id: self.next_id, certs: cert_views(self.certs@) }
    }
}

impl IndexView {
    /// Every id is at most the last id handed out, no two certificates share an id,
    /// and at most one certificate is active.
    pub open spec fn wf(self) -> bool {
        &&& forall|i: int| 0 <= i < self.certs.len() ==> #[trigger] self.certs[i].id <= self.next_id
        &&& forall|i: int, j: int|
            0 <= i < j < self.certs.len() ==> #[trigger] self.certs[i].id != #[trigger] self.certs[j].id
        &&& forall|i: int, j: int|
            0 <= i < self.certs.len() && 0 <= j < self.certs.len() && #[trigger] self.certs[i].active
                && #[trigger] self.certs[j].active ==> i == j
    }
}

/// `i` is the position of the first certificate with id `id`.
pub open spec fn first_with_id(certs: Seq<CertView>, id: u32, i: int) -> bool {
    &&& 0 <= i < certs.len()
    &&& certs[i].id == id
    &&& forall|j: int| 0 <= j < i ==> #[trigger] certs[j].id != id
}

/// The position of the first certificate with id `id`, or -1 where none has it.
pub open spec fn find_id(certs: Seq<CertView>, id: u32) -> int {
    if exists|i: int| first_with_id(certs, id, i) {
        choose|i: int| first_with_id(certs, id, i)
    } else {
        -1
    }
}

/// Whether some certificate has id `id`.
pub open spec fn has_id(certs: Seq<CertView>, id: u32) -> bool {
    exists|i: int| 0 <= i < certs.len() && #[trigger] certs[i].id == id
}

/// The index after registering a new certificate called `name`.
pub open spec fn spec_add(v: IndexView, name: Seq<char>) -> IndexView {
    IndexView {
        next_id: (v.next_id + 1) as u32,
        certs: v.certs.push(CertView { id: (v.next_id + 1) as u32, name, active: false }),
    }
}

/// The index after activating the certificate with id `id`: that one active, all others not.
pub open spec fn spec_activate(v: IndexView, id: u32) -> IndexView {
    let i = find_id(v.certs, id);
    if i < 0 {
        v
    } else {
        IndexView {
            next_id: v.next_id,
            certs: Seq::new(v.certs.len(), |j: int| with_active(v.certs[j], j == i)),
        }
    }
}

/// The index after deactivating the certificate with id `id`.
pub open spec fn spec_deactivate(v: IndexView, id: u32) -> IndexView {
    let i = find_id(v.certs, id);
    if i < 0 {
        v
    } else {
        IndexView { next_id: v.next_id, certs: v.certs.update(i, with_active(v.certs[i], false)) }
    }
}

/// The index after removing the certificate with id `id`.
pub open spec fn spec_remove(v: IndexView, id: u32) -> IndexView {
    let i = find_id(v.certs, id);
    if i < 0 {
        v
    } else {
        IndexView { next_id: v.next_id, certs: v.certs.remove(i) }
    }
}

/// The names of the active certificates, in order.
pub open spec fn active_names(certs: Seq<CertView>) -> Seq<Seq<char>>
    decreases certs.len(),
{
    if certs.len() == 0 {
        seq![]
    } else {
        let rest = active_names(certs.drop_last());
        if certs.last().active {
            rest.push(certs.last().name)
        } else {
            rest
        }
    }
}

/// The name under which a certificate's file is kept in the store: its id, `_`, its name.
pub open spec fn stored_name(c: CertView) -> Seq<char> {
    decimal(c.id as nat) + seq!['_'] + c.name
}

/// Whether an active certificate is called `name`.
pub open spec fn has_active_named(certs: Seq<CertView>, name: Seq<char>) -> bool {
    exists|j: int| 0 <= j < certs.len() && #[trigger] certs[j].active && certs[j].name == name
}

/// The trust-anchor links there are to be: one per name of an active certificate.
pub open spec fn anchor_links(certs: Seq<CertView>) -> Set<Seq<char>> {
    Set::new(|name: Seq<char>| has_active_named(certs, name))
}

/// A change of the trust-anchor links: links to remove, then a link to create.
#[derive(Debug)]
pub struct AnchorChange {
    pub unlink: Vec<String>,
    pub link: Option<String>,
}

/// What a change of links is, as the contracts speak of it.
pub struct AnchorChangeView {
    pub unlink: Seq<Seq<char>>,
    pub link: Option<Seq<char>>,
}

impl View for AnchorChange {
    type V = AnchorChangeView;

    open spec fn view(&self) -> AnchorChangeView {
        AnchorChangeView { unlink: self.unlink@.map_values(|s: String| s@), link: opt_view(self.link) }
    }
}

/// The links there are after applying `change` to `links`.
pub open spec fn apply_change(links: Set<Seq<char>>, change: AnchorChangeView) -> Set<Seq<char>> {
    let kept = links.difference(change.unlink.to_set());
    match change.link {
        Some(name) => kept.insert(name),
        None => kept,
    }
}

/// The link change of activating the certificate with id `id`: every link of an active
/// certificate goes, then the link of the activated one is made.
pub open spec fn spec_activate_change(v: IndexView, id: u32) -> AnchorChangeView {
    AnchorChangeView {
        unlink: active_names(v.certs),
        link: Some(v.certs[find_id(v.certs, id)].name),
    }
}

/// The link change of deactivating the certificate with id `id`: its link goes, unless
/// a certificate still active has the same name.
pub open spec fn spec_deactivate_change(v: IndexView, id: u32) -> AnchorChangeView {
    let name = v.certs[find_id(v.certs, id)].name;
    AnchorChangeView {
        unlink: if has_active_named(spec_deactivate(v, id).certs, name) {
            seq![]
        } else {
            seq![name]
        },
        link: None,
    }
}

/// The link change of removing the certificate with id `id`: its link goes if it was
/// active, unless a certificate still active has the same name.
pub open spec fn spec_remove_change(v: IndexView, id: u32) -> AnchorChangeView {
    let c = v.certs[find_id(v.certs, id)];
    AnchorChangeView {
        unlink: if c.active && !has_active_named(spec_remove(v, id).certs, c.name) {
            seq![c.name]
        } else {
            seq![]
        },
        link: None,
    }
}

/// A name is among the active names exactly where an active certificate has it.
pub proof fn lemma_active_names_contains(certs: Seq<CertView>, name: Seq<char>)
    ensures
        active_names(certs).contains(name) <==> has_active_named(certs, name),
    decreases certs.len(),
{
    if certs.len() > 0 {
        let rest = certs.drop_last();
        lemma_active_names_contains(rest, name);
        if has_active_named(certs, name) {
            let j = choose|j: int| 0 <= j < certs.len() && #[trigger] certs[j].active && certs[j].name == name;
            if j < certs.len() - 1 {
                assert(rest[j] == certs[j]);
                assert(has_active_named(rest, name));
            } else {
                assert(active_names(certs).last() == name);
            }
        }
        if has_active_named(rest, name) {
            let j = choose|j: int| 0 <= j < rest.len() && #[trigger] rest[j].active && rest[j].name == name;
            assert(certs[j] == rest[j]);
        }
        if active_names(certs).contains(name) && !active_names(rest).contains(name) {
            let k = choose|k: int| 0 <= k < active_names(certs).len() && active_names(certs)[k] == name;
            assert(certs.last().active);
            assert(k == active_names(rest).len());
            assert(certs[certs.len() - 1].name == name);
        }
        if active_names(rest).contains(name) && certs.last().active {
            let k = choose|k: int| 0 <= k < active_names(rest).len() && active_names(rest)[k] == name;
            assert(active_names(certs)[k] == name);
        }
    }
}

/// A path segment that names something: neither empty nor `.`.
pub open spec fn meaningful(seg: Seq<char>) -> bool {
    seg.len() > 0 && seg != seq!['.']
}

/// Reading `path` from the left: the last complete segment that names something, and
/// the segment being read.
pub open spec fn seg_scan(path: Seq<char>) -> (Option<Seq<char>>, Seq<char>)
    decreases path.len(),
{
    if path.len() == 0 {
        (None, seq![])
    } else {
        let (last, cur) = seg_scan(path.drop_last());
        if path.last() == '/' {
            (if meaningful(cur) { Some(cur) } else { last }, seq![])
        } else {
            (last, cur.push(path.last()))
        }
    }
}

/// The last segment of `path` between `/` separators that is neither empty nor `.`.
pub open spec fn final_segment(path: Seq<char>) -> Option<Seq<char>> {
    let (last, cur) = seg_scan(path);
    if meaningful(cur) {
        Some(cur)
    } else {
        last
    }
}

/// The file name of a path (as `Path::file_name` finds it): its last segment, ignoring
/// empty and `.` segments; none where no segment is left or the last one is `..`.
pub open spec fn path_file_name(path: Seq<char>) -> Option<Seq<char>> {
    match final_segment(path) {
        Some(seg) => if seg == seq!['.', '.'] {
            None
        } else {
            Some(seg)
        },
        None => None,
    }
}

/// The view of an optional string.
pub open spec fn opt_view(o: Option<String>) -> Option<Seq<char>> {
    match o {
        Some(s) => Some(s@),
        None => None,
    }
}

fn is_meaningful(seg: &String) -> (r: bool)
    ensures
        r == meaningful(seg@),
{
    let n = seg.as_str().unicode_len();
    if n == 0 {
        false
    } else if n == 1 && seg.as_str().get_char(0) == '.' {
        assert(seg@ =~= seq!['.']);
        false
    } else {
        assert(n == 1 ==> seg@[0] != '.');
        true
    }
}

fn is_parent(seg: &String) -> (r: bool)
    ensures
        r == (seg@ == seq!['.', '.']),
{
    let n = seg.as_str().unicode_len();
    if n == 2 && seg.as_str().get_char(0) == '.' && seg.as_str().get_char(1) == '.' {
        assert(seg@ =~= seq!['.', '.']);
        true
    } else {
        assert(seg@ != seq!['.', '.'] || seg@.len() != 2 || seg@[0] != '.' || seg@[1] != '.');
        false
    }
}

proof fn lemma_find_first(certs: Seq<CertView>, id: u32, i: int)
    requires
        first_with_id(certs, id, i),
    ensures
        find_id(certs, id) == i,
        has_id(certs, id),
{
    let k = choose|k: int| first_with_id(certs, id, k);
    assert(first_with_id(certs, id, k));
    if k < i {
        assert(certs[k].id != id);
    }
    if i < k {
        assert(certs[i].id != id);
    }
}

proof fn lemma_find_none(certs: Seq<CertView>, id: u32)
    requires
        forall|j: int| 0 <= j < certs.len() ==> #[trigger] certs[j].id != id,
    ensures
        find_id(certs, id) == -1,
        !has_id(certs, id),
{
}

/// Where `find_id` finds a position, it is the first one with that id.
pub proof fn lemma_find_id(certs: Seq<CertView>, id: u32)
    ensures
        find_id(certs, id) >= 0 ==> first_with_id(certs, id, find_id(certs, id)),
        find_id(certs, id) < 0 <==> !has_id(certs, id),
        -1 <= find_id(certs, id) < certs.len(),
{
    if has_id(certs, id) {
        let k = choose|k: int| 0 <= k < certs.len() && #[trigger] certs[k].id == id;
        lemma_first_exists(certs, id, k);
    } else {
        lemma_find_none(certs, id);
    }
}

proof fn lemma_first_exists(certs: Seq<CertView>, id: u32, k: int)
    requires
        0 <= k < certs.len(),
        certs[k].id == id,
    ensures
        exists|i: int| first_with_id(certs, id, i),
        find_id(certs, id) >= 0,
        first_with_id(certs, id, find_id(certs, id)),
    decreases k,
{
    if exists|j: int| 0 <= j < k && #[trigger] certs[j].id == id {
        let j = choose|j: int| 0 <= j < k && #[trigger] certs[j].id == id;
        lemma_first_exists(certs, id, j);
    } else {
        assert(first_with_id(certs, id, k));
    }
}

impl Index {
    /// An index with no certificates that has handed out no id yet.
    pub fn new() -> (idx: Index)
        ensures
            idx@.next_id == 0,
            idx@.certs == Seq::<CertView>::empty(),
            idx@.wf(),
    {
        let idx = Index { next_id: 0, certs: Vec::new() };
        assert(idx@.certs =~= Seq::<CertView>::empty());
        idx
    }

    /// An index made of a last id handed out and certificates, as stored.
    pub fn from_parts(next_id: u32, certs: Vec<Certificate>) -> (idx: Index)
        ensures
            idx@.next_id == next_id,
            idx@.certs == cert_views(certs@),
    {
        Index { next_id, certs }
    }

    /// The last id handed out and the certificates, as stored.
    pub fn into_parts(self) -> (parts: (u32, Vec<Certificate>))
        ensures
            parts.0 == self@.next_id,
            cert_views(parts.1@) == self@.certs,
    {
        (self.next_id, self.certs)
    }

    /// The last id handed out.
    pub fn next_id(&self) -> (n: u32)
        ensures
            n == self@.next_id,
    {
        self.next_id
    }

    /// The number of managed certificates.
    pub fn len(&self) -> (n: usize)
        ensures
            n == self@.certs.len(),
    {
        self.certs.len()
    }

    /// The position of the first certificate with id `id`, where there is one.
    pub fn position(&self, id: u32) -> (p: Option<usize>)
        ensures
            match p {
                Some(i) => i as int == find_id(self@.certs, id),
                None => find_id(self@.certs, id) == -1,
            },
    {
        let n = self.certs.len();
        let mut i: usize = 0;
        while i < n
            invariant
                n == self.certs@.len(),
                i <= n,
                forall|j: int| 0 <= j < i ==> #[trigger] self@.certs[j].id != id,
            decreases n - i,
        {
            if self.certs[i].id == id {
                proof {
                    lemma_find_first(self@.certs, id, i as int);
                }
                return Some(i);
            }
            i = i + 1;
        }
        proof {
            lemma_find_none(self@.certs, id);
        }
        None
    }
}

/// All managed certificates, in the order they were added.
pub fn list(idx: &Index) -> (certs: Vec<Certificate>)
    ensures
        cert_views(certs@) == idx@.certs,
{
    let n = idx.certs.len();
    let mut out: Vec<Certificate> = Vec::new();
    let mut i: usize = 0;
    while i < n
        invariant
            n == idx.certs@.len(),
            i <= n,
            out@.len() == i,
            forall|k: int| 0 <= k < i ==> #[trigger] out@[k]@ == idx.certs@[k]@,
        decreases n - i,
    {
        out.push(idx.certs[i].copy());
        i = i + 1;
    }
    assert(cert_views(out@) =~= idx@.certs);
    out
}

/// The name under which a certificate's file is kept in the store, such as `12_my_cert.cer`.
pub fn stored_file_name(c: &Certificate) -> (s: String)
    ensures
        s@ == stored_name(c@),
{
    let mut s = String::new();
    push_decimal(&mut s, c.id);
    push_char(&mut s, '_');
    s.append(c.name.as_str());
    assert(s@ =~= stored_name(c@));
    s
}

/// The file name of a chosen path, or `NoFileName` where the path names none.
pub fn file_name_of(source_path: &str) -> (r: Result<String, CertError>)
    ensures
        match r {
            Ok(n) => path_file_name(source_path@) == Some(n@),
            Err(e) => e == CertError::NoFileName && path_file_name(source_path@) is None,
        },
{
    let n = source_path.unicode_len();
    let mut last: Option<String> = None;
    let mut cur = String::new();
    let mut i: usize = 0;
    while i < n
        invariant
            n == source_path@.len(),
            i <= n,
            (opt_view(last), cur@) == seg_scan(source_path@.take(i as int)),
        decreases n - i,
    {
        let ch = source_path.get_char(i);
        proof {
            assert(source_path@.take(i + 1).drop_last() =~= source_path@.take(i as int));
        }
        if ch == '/' {
            if is_meaningful(&cur) {
                last = Some(cur);
            }
            cur = String::new();
        } else {
            push_char(&mut cur, ch);
        }
        i = i + 1;
    }
    assert(source_path@.take(n as int) =~= source_path@);
    let found = if is_meaningful(&cur) {
        Some(cur)
    } else {
        last
    };
    match found {
        Some(seg) => {
            if is_parent(&seg) {
                Err(CertError::NoFileName)
            } else {
                Ok(seg)
            }
        },
        None => Err(CertError::NoFileName),
    }
}

/// Registers the file at `source_path` under the next id, inactive. The caller copies
/// the file into the store under `stored_file_name` of the result.
pub fn add(idx: &mut Index, source_path: &str) -> (r: Result<Certificate, CertError>)
    requires
        path_file_name(source_path@) is Some ==> old(idx)@.next_id < u32::MAX,
    ensures
        match r {
            Ok(c) => {
                &&& path_file_name(source_path@) == Some(c@.name)
                &&& final(idx)@ == spec_add(old(idx)@, c@.name)
                &&& c@ == final(idx)@.certs.last()
                &&& anchor_links(final(idx)@.certs) == anchor_links(old(idx)@.certs)
            },
            Err(e) => {
                &&& e == CertError::NoFileName
                &&& path_file_name(source_path@) is None
                &&& final(idx)@ == old(idx)@
            },
        },
        old(idx)@.wf() ==> final(idx)@.wf(),
{
    let name = match file_name_of(source_path) {
        Ok(n) => n,
        Err(e) => return Err(e),
    };
    let new_id = idx.next_id + 1;
    idx.next_id = new_id;
    let cert = Certificate { id: new_id, name, active: false };
    let ghost old_certs = idx.certs@;
    idx.certs.push(cert.copy());
    proof {
        assert(cert_views(idx.certs@) =~= cert_views(old_certs).push(cert@));
        assert(idx@ == spec_add(old(idx)@, cert@.name));
        crate::laws::law_anchor_links_follow(old(idx)@, 0, cert@.name);
    }
    Ok(cert)
}

fn has_active_name(certs: &Vec<Certificate>, name: &String) -> (r: bool)
    ensures
        r == has_active_named(cert_views(certs@), name@),
{
    let ghost cv = cert_views(certs@);
    let n = certs.len();
    let mut i: usize = 0;
    while i < n
        invariant
            n == certs@.len(),
            cv == cert_views(certs@),
            i <= n,
            forall|j: int| 0 <= j < i ==> !(#[trigger] cv[j].active && cv[j].name == name@),
        decreases n - i,
    {
        if certs[i].active && certs[i].name == *name {
            assert(cv[i as int].active && cv[i as int].name == name@);
            return true;
        }
        i = i + 1;
    }
    false
}

/// Activates the certificate with id `id` and deactivates all others. Returns it and
/// the link change that goes with it: the links of all certificates that were active go,
/// and the activated certificate's link is made. Where no certificate has id `id`, the
/// result is `NotFound`, nothing is unlinked and the index is left as it was.
pub fn activate(idx: &mut Index, id: u32) -> (r: Result<(Certificate, AnchorChange), CertError>)
    ensures
        final(idx)@ == spec_activate(old(idx)@, id),
        match r {
            Ok((c, change)) => {
                &&& find_id(old(idx)@.certs, id) >= 0
                &&& c@ == final(idx)@.certs[find_id(old(idx)@.certs, id)]
                &&& change@ == spec_activate_change(old(idx)@, id)
                &&& apply_change(anchor_links(old(idx)@.certs), change@) == anchor_links(final(idx)@.certs)
            },
            Err(e) => {
                &&& e == CertError::NotFound
                &&& !has_id(old(idx)@.certs, id)
                &&& final(idx)@ == old(idx)@
            },
        },
        old(idx)@.wf() ==> final(idx)@.wf(),
{
    proof {
        lemma_find_id(idx@.certs, id);
    }
    let pos = match idx.position(id) {
        Some(p) => p,
        None => return Err(CertError::NotFound),
    };
    let n = idx.certs.len();
    let mut names: Vec<String> = Vec::new();
    let mut i: usize = 0;
    while i < n
        invariant
            n == idx.certs@.len(),
            idx@ == old(idx)@,
            i <= n,
            names@.map_values(|s: String| s@) == active_names(idx@.certs.take(i as int)),
        decreases n - i,
    {
        if idx.certs[i].active {
            names.push(idx.certs[i].name.clone());
        }
        proof {
            assert(idx@.certs.take(i + 1).drop_last() =~= idx@.certs.take(i as int));
        }
        i = i + 1;
        assert(names@.map_values(|s: String| s@) =~= active_names(idx@.certs.take(i as int)));
    }
    assert(idx@.certs.take(n as int) =~= idx@.certs);
    let ghost before = idx@.certs;
    assert(forall|k: int| 0 <= k < n ==> before[k] == #[trigger] idx.certs@[k]@);
    let mut j: usize = 0;
    while j < n
        invariant
            n == idx.certs@.len(),
            before.len() == n,
            pos < n,
            j <= n,
            idx@.next_id == old(idx)@.next_id,
            forall|k: int| 0 <= k < j ==> #[trigger] idx.certs@[k]@ == with_active(before[k], k == pos),
            forall|k: int| j <= k < n ==> #[trigger] idx.certs@[k]@ == before[k],
        decreases n - j,
    {
        let mut c = idx.certs[j].copy();
        c.active = j == pos;
        idx.certs.set(j, c);
        j = j + 1;
    }
    let target = idx.certs[pos].copy();
    let change = AnchorChange { unlink: names, link: Some(target.name.clone()) };
    proof {
        assert(idx@.certs =~= spec_activate(old(idx)@, id).certs);
        assert(change@.unlink == active_names(before));
        crate::laws::law_anchor_links_follow(old(idx)@, id, seq![]);
    }
    Ok((target, change))
}

/// Deactivates the certificate with id `id`, keeping its file in the store. Returns it,
/// now inactive, and the link change: its link goes, unless a certificate still active
/// has the same name. Where no certificate has id `id`, the result is `NotFound` and the
/// index is left as it was.
pub fn deactivate(idx: &mut Index, id: u32) -> (r: Result<(Certificate, AnchorChange), CertError>)
    ensures
        final(idx)@ == spec_deactivate(old(idx)@, id),
        match r {
            Ok((c, change)) => {
                &&& find_id(old(idx)@.certs, id) >= 0
                &&& c@ == final(idx)@.certs[find_id(old(idx)@.certs, id)]
                &&& change@ == spec_deactivate_change(old(idx)@, id)
                &&& apply_change(anchor_links(old(idx)@.certs), change@) == anchor_links(final(idx)@.certs)
            },
            Err(e) => e == CertError::NotFound && !has_id(old(idx)@.certs, id),
        },
        old(idx)@.wf() ==> final(idx)@.wf(),
{
    proof {
        lemma_find_id(idx@.certs, id);
    }
    match idx.position(id) {
        Some(pos) => {
            let mut c = idx.certs[pos].copy();
            c.active = false;
            let ghost before = idx.certs@;
            idx.certs.set(pos, c.copy());
            proof {
                assert(cert_views(idx.certs@) =~= cert_views(before).update(pos as int, c@));
            }
            let unlink = if has_active_name(&idx.certs, &c.name) {
                Vec::new()
            } else {
                let mut v: Vec<String> = Vec::new();
                v.push(c.name.clone());
                v
            };
            let change = AnchorChange { unlink, link: None };
            proof {
                assert(change@.unlink =~= spec_deactivate_change(old(idx)@, id).unlink);
                crate::laws::law_anchor_links_follow(old(idx)@, id, seq![]);
            }
            Ok((c, change))
        },
        None => Err(CertError::NotFound),
    }
}

/// Removes the certificate with id `id` from the index and returns it (its stored file is
/// to go) with the link change: its link goes if it was active, unless a certificate still
/// active has the same name. Where no certificate has id `id`, the result is `NotFound`
/// and the index is left as it was.
pub fn remove(idx: &mut Index, id: u32) -> (r: Result<(Certificate, AnchorChange), CertError>)
    ensures
        final(idx)@ == spec_remove(old(idx)@, id),
        match r {
            Ok((c, change)) => {
                &&& find_id(old(idx)@.certs, id) >= 0
                &&& c@ == old(idx)@.certs[find_id(old(idx)@.certs, id)]
                &&& change@ == spec_remove_change(old(idx)@, id)
                &&& apply_change(anchor_links(old(idx)@.certs), change@) == anchor_links(final(idx)@.certs)
            },
            Err(e) => e == CertError::NotFound && !has_id(old(idx)@.certs, id),
        },
        old(idx)@.wf() ==> final(idx)@.wf(),
{
    proof {
        lemma_find_id(idx@.certs, id);
    }
    match idx.position(id) {
        Some(pos) => {
            let ghost before = idx.certs@;
            let c = idx.certs.remove(pos);
            proof {
                assert(cert_views(idx.certs@) =~= cert_views(before).remove(pos as int));
                if old(idx)@.wf() {
                    crate::laws::law_operations_keep_wf(old(idx)@, id, seq![]);
                }
            }
            let unlink = if c.active && !has_active_name(&idx.certs, &c.name) {
                let mut v: Vec<String> = Vec::new();
                v.push(c.name.clone());
                v
            } else {
                Vec::new()
            };
            let change = AnchorChange { unlink, link: None };
            proof {
                assert(change@.unlink =~= spec_remove_change(old(idx)@, id).unlink);
                crate::laws::law_anchor_links_follow(old(idx)@, id, seq![]);
            }
            Ok((c, change))
        },
        None => Err(CertError::NotFound),
    }
}

} // verus!
