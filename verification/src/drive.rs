//! Distributed encrypted storage: the bookkeeping of one drive node.
//!
//! A node stores encrypted files under a content-derived id (`file:` and
//! the hex of the first 16 bytes of their SHA-256), within a byte quota,
//! and hands out public links that expire after 24 hours. Deleting a file
//! invalidates its links. Reading and writing the bytes on disk is the
//! caller's: this module decides what to write where, and records it.

use vstd::prelude::*;
use crate::clock::now_ms;
use crate::digest::{sha256, sha256_of};
use crate::text::{chars_of, hex_of, owned, push_char, push_hex, push_str, str_eq};

verus! {

/// 10 GiB.
pub const DEFAULT_QUOTA: u64 = 10_737_418_240;

/// A public link lives 24 hours.
pub const LINK_TTL_MS: u64 = 86_400_000;

/// File metadata.
#[derive(Clone, Debug)]
pub struct FileMeta {
    pub id: String,
    pub name: String,
    pub size: u64,
    pub mime: Option<String>,
    pub owner: String,
    /// Where the ciphertext is stored.
    pub path: String,
    pub uploaded_at_ms: u64,
}

/// An ephemeral public link.
#[derive(Clone, Debug)]
pub struct PublicLink {
    pub token: String,
    pub file_id: String,
    pub created_at_ms: u64,
    pub ttl_ms: u64,
}

/// Quota tracking, in bytes.
#[derive(Clone, Copy, Debug)]
pub struct Quota {
    pub used: u64,
    pub cap: u64,
}

impl Default for Quota {
    fn default() -> (res: Quota)
        ensures
            res.used == 0 && res.cap == 0,
    {
        Quota { used: 0, cap: 0 }
    }
}

/// Free bytes under a quota (none when over it).
pub open spec fn free_bytes(q: Quota) -> nat {
    if q.cap >= q.used {
        (q.cap - q.used) as nat
    } else {
        0
    }
}

impl Quota {
    /// An empty 10 GiB quota.
    pub fn default_10gib() -> (res: Quota)
        ensures
            res.used == 0,
            res.cap == DEFAULT_QUOTA,
    {
        Quota { used: 0, cap: DEFAULT_QUOTA }
    }

    /// Free bytes.
    pub fn free(&self) -> (res: u64)
        ensures
            res == free_bytes(*self),
    {
        self.cap.saturating_sub(self.used)
    }

    /// Whether `n` more bytes fit.
    pub fn can_fit(&self, n: u64) -> (res: bool)
        ensures
            res == (n <= free_bytes(*self)),
    {
        n <= self.free()
    }
}

/// A byte range to stream, both ends included.
#[derive(Clone, Copy, Debug)]
pub struct Range {
    pub start: u64,
    pub end: u64,
}

/// The id of a file with this ciphertext.
pub open spec fn file_id_of(ciphertext: Seq<u8>) -> Seq<char> {
    "file:"@ + hex_of(sha256_of(ciphertext).take(16))
}

/// The big-endian bytes of a `u64` (`u64::to_be_bytes`).
pub open spec fn be_bytes(n: u64) -> Seq<u8> {
    Seq::new(8, |i: int| ((n >> ((56 - 8 * i) as u64)) & 0xff) as u8)
}

/// The token of a link to `file_id` made at `now`.
pub open spec fn link_token(file_id: Seq<char>, now: u64) -> Seq<char> {
    hex_of(sha256_of(vstd::utf8::encode_utf8(file_id) + be_bytes(now)).take(16))
}

/// A link made at `created` with time-to-live `ttl` still resolves at `now`.
pub open spec fn link_live(created: u64, ttl: u64, now: u64) -> bool {
    (if now >= created { now - created } else { 0 }) <= ttl
}

fn first_16_hex(data: &[u8]) -> (res: String)
    ensures
        res@ == hex_of(sha256_of(data@).take(16)),
        res@.len() == 32,
{
    let digest = sha256(data);
    let mut head: Vec<u8> = Vec::new();
    let mut h: usize = 0;
    while h < 16
        invariant
            0 <= h <= 16,
            digest@.len() == 32,
            head@ == digest@.take(h as int),
        decreases 16 - h,
    {
        head.push(digest[h]);
        h = h + 1;
        proof {
            assert(head@ =~= digest@.take(h as int));
        }
    }
    let mut s = String::new();
    push_hex(&mut s, head.as_slice());
    s
}

/// The local drive node.
pub struct DriveNode {
    files: Vec<FileMeta>,
    links: Vec<PublicLink>,
    quota: Quota,
    root: String,
}

impl DriveNode {
    /// The stored files.
    pub closed spec fn file_list(&self) -> Seq<FileMeta> {
        self.files@
    }

    /// The public links.
    pub closed spec fn link_list(&self) -> Seq<PublicLink> {
        self.links@
    }

    /// The byte quota.
    pub closed spec fn quota_state(&self) -> Quota {
        self.quota
    }

    /// The directory the files live in.
    pub closed spec fn root_dir(&self) -> Seq<char> {
        self.root@
    }

    /// Files are keyed by id, links by token.
    pub open spec fn wf(&self) -> bool {
        &&& forall|i: int, j: int|
            0 <= i < j < self.file_list().len() ==> (#[trigger] self.file_list()[i]).id@ != (
            #[trigger] self.file_list()[j]).id@
        &&& forall|i: int, j: int|
            0 <= i < j < self.link_list().len() ==> (#[trigger] self.link_list()[i]).token@ != (
            #[trigger] self.link_list()[j]).token@
    }

    /// The quota law: the bytes counted as used are exactly the sizes of
    /// the stored files, and within the cap. A new node keeps it; putting a
    /// file under a new id, deleting, linking and sweeping links keep it.
    /// Putting bytes that are already stored counts their size twice.
    pub open spec fn quota_tracks(&self) -> bool {
        &&& self.quota_state().used == stored_bytes(self.file_list())
        &&& self.quota_state().used <= self.quota_state().cap
    }

    /// An empty node storing under `root`, with a 10 GiB quota.
    pub fn new(root: String) -> (res: DriveNode)
        ensures
            res.quota_tracks(),
            res.wf(),
            res.file_list().len() == 0,
            res.link_list().len() == 0,
            res.quota_state() == Quota::default_10gib_spec(),
            res.root_dir() == root@,
    {
        DriveNode { files: Vec::new(), links: Vec::new(), quota: Quota::default_10gib(), root }
    }
}

impl Quota {
    /// The empty 10 GiB quota.
    pub open spec fn default_10gib_spec() -> Quota {
        Quota { used: 0, cap: DEFAULT_QUOTA }
    }
}

/// The bytes the stored files take up together.
pub open spec fn stored_bytes(files: Seq<FileMeta>) -> nat
    decreases files.len(),
{
    if files.len() == 0 {
        0
    } else {
        stored_bytes(files.drop_last()) + files.last().size as nat
    }
}

proof fn lemma_stored_concat(a: Seq<FileMeta>, b: Seq<FileMeta>)
    ensures
        stored_bytes(a + b) == stored_bytes(a) + stored_bytes(b),
    decreases b.len(),
{
    if b.len() == 0 {
        assert(a + b =~= a);
    } else {
        assert((a + b).drop_last() =~= a + b.drop_last());
        lemma_stored_concat(a, b.drop_last());
    }
}

/// Taking a file out takes its size out of the total.
pub proof fn lemma_stored_remove(files: Seq<FileMeta>, k: int)
    requires
        0 <= k < files.len(),
    ensures
        stored_bytes(files) == stored_bytes(files.remove(k)) + files[k].size,
{
    let a = files.take(k);
    let b = files.skip(k + 1);
    assert(files =~= (a + seq![files[k]]) + b);
    assert(files.remove(k) =~= a + b);
    lemma_stored_concat(a + seq![files[k]], b);
    lemma_stored_concat(a, seq![files[k]]);
    lemma_stored_concat(a, b);
    let one = seq![files[k]];
    assert(one.drop_last() =~= Seq::<FileMeta>::empty());
    assert(stored_bytes(one.drop_last()) == 0);
    assert(stored_bytes(one) == files[k].size);
}

/// The index of the file with the given id, or -1.
pub open spec fn file_index(files: Seq<FileMeta>, id: Seq<char>) -> int {
    if exists|i: int| 0 <= i < files.len() && (#[trigger] files[i]).id@ == id {
        choose|i: int| 0 <= i < files.len() && (#[trigger] files[i]).id@ == id
    } else {
        -1
    }
}

/// The index of the link with the given token, or -1.
pub open spec fn link_index(links: Seq<PublicLink>, token: Seq<char>) -> int {
    if exists|i: int| 0 <= i < links.len() && (#[trigger] links[i]).token@ == token {
        choose|i: int| 0 <= i < links.len() && (#[trigger] links[i]).token@ == token
    } else {
        -1
    }
}

/// The file id a token resolves to at `now`, if any.
pub open spec fn resolution(links: Seq<PublicLink>, token: Seq<char>, now: u64) -> Option<Seq<char>> {
    let k = link_index(links, token);
    if k >= 0 && link_live(links[k].created_at_ms, links[k].ttl_ms, now) {
        Some(links[k].file_id@)
    } else {
        None
    }
}

impl DriveNode {
    fn find_file(&self, id: &str) -> (res: Option<usize>)
        ensures
            res is None <==> forall|j: int| 0 <= j < self.files@.len() ==> (#[trigger] self.files@[j]).id@ != id@,
            res matches Some(i) ==> i < self.files@.len() && self.files@[i as int].id@ == id@,
    {
        let mut i: usize = 0;
        while i < self.files.len()
            invariant
                0 <= i <= self.files@.len(),
                forall|j: int| 0 <= j < i ==> (#[trigger] self.files@[j]).id@ != id@,
            decreases self.files@.len() - i,
        {
            if str_eq(self.files[i].id.as_str(), id) {
                return Some(i);
            }
            i = i + 1;
        }
        None
    }

    fn find_link(&self, token: &str) -> (res: Option<usize>)
        ensures
            res is None <==> forall|j: int| 0 <= j < self.links@.len() ==> (#[trigger] self.links@[j]).token@ != token@,
            res matches Some(i) ==> i < self.links@.len() && self.links@[i as int].token@ == token@,
    {
        let mut i: usize = 0;
        while i < self.links.len()
            invariant
                0 <= i <= self.links@.len(),
                forall|j: int| 0 <= j < i ==> (#[trigger] self.links@[j]).token@ != token@,
            decreases self.links@.len() - i,
        {
            if str_eq(self.links[i].token.as_str(), token) {
                return Some(i);
            }
            i = i + 1;
        }
        None
    }

    /// Decides where ciphertext would be stored: its id, or `None` when it
    /// does not fit in the quota.
    pub fn plan_put(&self, ciphertext: &[u8]) -> (res: Option<String>)
        ensures
            res is None <==> !(ciphertext@.len() <= free_bytes(self.quota_state())),
            res matches Some(id) ==> id@ == file_id_of(ciphertext@),
    {
        let size = ciphertext.len() as u64;
        if !self.quota.can_fit(size) {
            return None;
        }
        let mut id = owned("file:");
        let h = first_16_hex(ciphertext);
        crate::text::push_str(&mut id, h.as_str());
        Some(id)
    }

    /// Records a stored file (replacing the record of the same id) and
    /// counts its size against the quota; refused, with nothing changed,
    /// when the size does not fit in what is free.
    pub fn record_put(&mut self, meta: FileMeta) -> (res: bool)
        requires
            old(self).wf(),
        ensures
            final(self).wf(),
            res == (meta.size <= free_bytes(old(self).quota_state())),
            !res ==> *final(self) == *old(self),
            res ==> final(self).link_list() == old(self).link_list(),
            res ==> final(self).root_dir() == old(self).root_dir(),
            res ==> final(self).quota_state() == (Quota { used: (old(self).quota_state().used + meta.size) as u64, ..old(self).quota_state() }),
            res ==> ({
                let k = file_index(old(self).file_list(), meta.id@);
                if k >= 0 {
                    final(self).file_list() == old(self).file_list().update(k, meta)
                } else {
                    final(self).file_list() == old(self).file_list().push(meta)
                }
            }),
            old(self).quota_tracks() && file_index(old(self).file_list(), meta.id@) < 0 ==> final(self).quota_tracks(),
    {
        let ghost s = self.files@;
        let size = meta.size;
        if !self.quota.can_fit(size) {
            return false;
        }
        match self.find_file(meta.id.as_str()) {
            Some(i) => {
                proof {
                    assert(file_index(s, meta.id@) == i as int);
                }
                self.files.set(i, meta);
                proof {
                    assert forall|a: int, b: int| 0 <= a < b < self.files@.len() implies (#[trigger] self.files@[a]).id@ != (#[trigger] self.files@[b]).id@ by {
                        assert(self.files@[a].id@ == s[a].id@);
                        assert(self.files@[b].id@ == s[b].id@);
                    }
                }
            },
            None => {
                self.files.push(meta);
                proof {
                    assert forall|a: int, b: int| 0 <= a < b < self.files@.len() implies (#[trigger] self.files@[a]).id@ != (#[trigger] self.files@[b]).id@ by {
                        assert(self.files@[a] == if a < s.len() { s[a] } else { meta });
                        assert(self.files@[b] == if b < s.len() { s[b] } else { meta });
                    }
                    assert(self.files@.drop_last() =~= s);
                }
            },
        }
        let ghost f1 = self.files@;
        self.quota.used = self.quota.used + size;
        assert(self.files@ == f1);
        assert(forall|i: int, j: int|
            0 <= i < j < self.file_list().len() ==> (#[trigger] self.file_list()[i]).id@ != (
            #[trigger] self.file_list()[j]).id@);
        assert(self.links@ == old(self).links@);
        assert(self.link_list() == old(self).link_list());
        assert(forall|i: int, j: int|
            0 <= i < j < self.link_list().len() ==> (#[trigger] self.link_list()[i]).token@ != (
            #[trigger] self.link_list()[j]).token@);
        true
    }

    /// The metadata of a file.
    pub fn meta(&self, id: &str) -> (res: Option<&FileMeta>)
        requires
            self.wf(),
        ensures
            res is None <==> file_index(self.file_list(), id@) < 0,
            res matches Some(m) ==> *m == self.file_list()[file_index(self.file_list(), id@)],
    {
        match self.find_file(id) {
            Some(i) => {
                proof {
                    assert(self.files@[i as int].id@ == id@);
                    let k = file_index(self.files@, id@);
                    assert(k >= 0);
                    if k != i as int {
                        assert(self.files@[k].id@ == id@);
                        if k < i as int {
                            assert(self.file_list()[k].id@ != self.file_list()[i as int].id@);
                        } else {
                            assert(self.file_list()[i as int].id@ != self.file_list()[k].id@);
                        }
                    }
                }
                Some(&self.files[i])
            },
            None => None,
        }
    }

    /// Where to read for a range of a file: (path, offset, length). The
    /// range is cut at the end of the file; `None` when there is no such
    /// file or the range starts at or past its end.
    pub fn stream_plan(&self, id: &str, r: Range) -> (res: Option<(String, u64, u64)>)
        requires
            self.wf(),
            forall|j: int| 0 <= j < self.file_list().len() && (#[trigger] self.file_list()[j]).id@ == id@ && r.start < self.file_list()[j].size ==> r.start <= r.end,
        ensures
            ({
                let k = file_index(self.file_list(), id@);
                if k < 0 || r.start >= self.file_list()[k].size {
                    res is None
                } else {
                    let m = self.file_list()[k];
                    let end = if r.end < m.size - 1 { r.end as int } else { m.size - 1 };
                    res matches Some((p, off, len)) && p@ == m.path@ && off == r.start && len == end - r.start + 1
                }
            }),
    {
        let m = match self.meta(id) {
            Some(m) => m,
            None => return None,
        };
        if r.start >= m.size {
            return None;
        }
        let end = if r.end < m.size - 1 { r.end } else { m.size - 1 };
        Some((m.path.clone(), r.start, end - r.start + 1))
    }
}

/// A path joined as `PathBuf::join` joins a relative name: straight after
/// an empty root or one that ends in `/`, else after a `/`.
pub open spec fn joined_path(root: Seq<char>, name: Seq<char>) -> Seq<char> {
    if root.len() == 0 || root.last() == '/' {
        root + name
    } else {
        root + seq!['/'] + name
    }
}

/// The bytes a range read gives from a file holding `contents`: the
/// `len` bytes from `offset`, or `None` when the file is shorter than that.
pub open spec fn slice_read(contents: Seq<u8>, offset: u64, len: u64) -> Option<Seq<u8>> {
    if offset + len <= contents.len() {
        Some(contents.subrange(offset as int, offset + len))
    } else {
        None
    }
}

/// The bytes `stream` hands out for the plan `(offset, len)`, from the
/// file's contents: `None` when the file holds fewer bytes than the plan
/// reads.
pub fn stream_slice(contents: &[u8], offset: u64, len: u64) -> (res: Option<Vec<u8>>)
    ensures
        match slice_read(contents@, offset, len) {
            Some(b) => res matches Some(v) && v@ == b,
            None => res is None,
        },
{
    let n = contents.len();
    if offset as u128 + len as u128 > n as u128 {
        return None;
    }
    let start = offset as usize;
    let end = start + len as usize;
    let mut out: Vec<u8> = Vec::new();
    let mut i = start;
    while i < end
        invariant
            start <= i <= end <= contents@.len(),
            start == offset,
            end == offset + len,
            out@ == contents@.subrange(start as int, i as int),
        decreases end - i,
    {
        out.push(contents[i]);
        i = i + 1;
        assert(out@ =~= contents@.subrange(start as int, i as int));
    }
    Some(out)
}

impl DriveNode {
    /// Where the file with id `id` is stored: the id joined to the root.
    pub fn file_path(&self, id: &str) -> (res: String)
        ensures
            res@ == joined_path(self.root_dir(), id@),
    {
        let cs = chars_of(self.root.as_str());
        let mut p = owned(self.root.as_str());
        if cs.len() > 0 && cs[cs.len() - 1] != '/' {
            push_char(&mut p, '/');
        }
        push_str(&mut p, id);
        proof {
            if cs@.len() > 0 {
                assert(cs@.last() == cs@[cs@.len() - 1]);
            }
        }
        p
    }

    /// The record of a file stored under `id` at `now`: its name, the size
    /// of its ciphertext, its type and owner, and where it is stored.
    pub fn put_meta_at(
        &self,
        id: String,
        name: String,
        ciphertext: &[u8],
        mime: Option<String>,
        owner: String,
        now: u64,
    ) -> (res: FileMeta)
        ensures
            res.id == id,
            res.name == name,
            res.size == ciphertext@.len(),
            res.mime == mime,
            res.owner == owner,
            res.path@ == joined_path(self.root_dir(), id@),
            res.uploaded_at_ms == now,
    {
        let path = self.file_path(id.as_str());
        FileMeta { id, name, size: ciphertext.len() as u64, mime, owner, path, uploaded_at_ms: now }
    }

    /// The record of a file stored under `id` now, as
    /// [`DriveNode::put_meta_at`] makes it at the current time.
    pub fn put_meta(&self, id: String, name: String, ciphertext: &[u8], mime: Option<String>, owner: String) -> (res: FileMeta)
        ensures
            res.id == id,
            res.name == name,
            res.size == ciphertext@.len(),
            res.mime == mime,
            res.owner == owner,
            res.path@ == joined_path(self.root_dir(), id@),
    {
        let now = now_ms();
        self.put_meta_at(id, name, ciphertext, mime, owner, now)
    }
}

fn be_bytes_of(n: u64) -> (res: Vec<u8>)
    ensures
        res@ == be_bytes(n),
{
    let mut out: Vec<u8> = Vec::new();
    let mut i: u64 = 0;
    while i < 8
        invariant
            0 <= i <= 8,
            out@.len() == i,
            forall|k: int| 0 <= k < i ==> #[trigger] out@[k] == ((n >> ((56 - 8 * k) as u64)) & 0xff) as u8,
        decreases 8 - i,
    {
        let b = ((n >> (56 - 8 * i)) & 0xff) as u8;
        out.push(b);
        i = i + 1;
    }
    assert(out@ =~= be_bytes(n));
    out
}

/// What issuing a link to `file_id` at `now` gives, over the files, the
/// links before (`before`) and after (`after`) and the result: `None` and
/// the links unchanged when no file has that id; else the token of the file
/// id and `now`, with a live 24-hour link under that token replacing the
/// one already there or added at the end.
pub open spec fn linked_at(
    files: Seq<FileMeta>,
    before: Seq<PublicLink>,
    after: Seq<PublicLink>,
    file_id: Seq<char>,
    res: Option<String>,
    now: u64,
) -> bool {
    if file_index(files, file_id) < 0 {
        res is None && after == before
    } else {
        res matches Some(t) && t@ == link_token(file_id, now) && t@.len() == 32 && {
            let k = link_index(before, t@);
            let l = after[if k >= 0 { k } else { before.len() as int }];
            &&& l.token@ == t@
            &&& l.file_id@ == file_id
            &&& l.created_at_ms == now
            &&& l.ttl_ms == LINK_TTL_MS
            &&& if k >= 0 {
                after == before.update(k, l)
            } else {
                after == before.push(l)
            }
        }
    }
}

impl DriveNode {
    /// Issues a 24-hour public link to a stored file at `now`; `None` when
    /// there is no such file. A link with the same token is replaced.
    pub fn link_at(&mut self, file_id: &str, now: u64) -> (res: Option<String>)
        requires
            old(self).wf(),
        ensures
            final(self).wf(),
            final(self).file_list() == old(self).file_list(),
            final(self).quota_state() == old(self).quota_state(),
            final(self).root_dir() == old(self).root_dir(),
            linked_at(old(self).file_list(), old(self).link_list(), final(self).link_list(), file_id@, res, now),
    {
        if self.find_file(file_id).is_none() {
            return None;
        }
        let mut data: Vec<u8> = Vec::new();
        let bytes = file_id.as_bytes();
        let mut i: usize = 0;
        while i < bytes.len()
            invariant
                0 <= i <= bytes@.len(),
                data@ == bytes@.take(i as int),
            decreases bytes@.len() - i,
        {
            data.push(bytes[i]);
            i = i + 1;
            proof {
                assert(data@ =~= bytes@.take(i as int));
            }
        }
        let be = be_bytes_of(now);
        let ghost d0 = data@;
        let mut j: usize = 0;
        while j < 8
            invariant
                0 <= j <= 8,
                be@.len() == 8,
                data@ == d0 + be@.take(j as int),
            decreases 8 - j,
        {
            data.push(be[j]);
            j = j + 1;
            proof {
                assert(data@ =~= d0 + be@.take(j as int));
            }
        }
        proof {
            assert(bytes@.take(bytes@.len() as int) =~= bytes@);
            assert(be@.take(8) =~= be@);
        }
        let token = first_16_hex(data.as_slice());
        let link = PublicLink { token: token.clone(), file_id: owned(file_id), created_at_ms: now, ttl_ms: LINK_TTL_MS };
        let ghost s = self.links@;
        match self.find_link(token.as_str()) {
            Some(k) => {
                proof {
                    let k2 = link_index(s, token@);
                    assert(s[k as int].token@ == token@);
                    if k2 != k as int {
                        assert(s[k2].token@ == token@);
                        if k2 < k as int {
                            assert(self.link_list()[k2].token@ != self.link_list()[k as int].token@);
                        } else {
                            assert(self.link_list()[k as int].token@ != self.link_list()[k2].token@);
                        }
                    }
                }
                self.links.set(k, link);
                proof {
                    assert forall|a: int, b: int| 0 <= a < b < self.links@.len() implies (#[trigger] self.links@[a]).token@ != (#[trigger] self.links@[b]).token@ by {
                        assert(self.links@[a].token@ == s[a].token@);
                        assert(self.links@[b].token@ == s[b].token@);
                        assert(old(self).link_list()[a].token@ != old(self).link_list()[b].token@);
                    }
                }
            },
            None => {
                self.links.push(link);
                proof {
                    assert forall|a: int, b: int| 0 <= a < b < self.links@.len() implies (#[trigger] self.links@[a]).token@ != (#[trigger] self.links@[b]).token@ by {
                        assert(self.links@[a] == if a < s.len() { s[a] } else { link });
                        assert(self.links@[b] == if b < s.len() { s[b] } else { link });
                        if b < s.len() {
                            assert(old(self).link_list()[a].token@ != old(self).link_list()[b].token@);
                        }
                    }
                }
            },
        }
        proof {
            assert(self.link_list() == self.links@);
            assert(forall|i: int, j: int|
                0 <= i < j < self.link_list().len() ==> (#[trigger] self.link_list()[i]).token@ != (
                #[trigger] self.link_list()[j]).token@);
            assert(forall|i: int, j: int|
                0 <= i < j < self.file_list().len() ==> (#[trigger] self.file_list()[i]).id@ != (
                #[trigger] self.file_list()[j]).id@);
        }
        Some(token)
    }

    /// Issues a 24-hour public link now.
    pub fn link(&mut self, file_id: &str) -> (res: Option<String>)
        requires
            old(self).wf(),
        ensures
            final(self).wf(),
            final(self).file_list() == old(self).file_list(),
            final(self).quota_state() == old(self).quota_state(),
            final(self).root_dir() == old(self).root_dir(),
            file_index(old(self).file_list(), file_id@) < 0 <==> res is None,
            exists|now: u64|
                #[trigger] linked_at(old(self).file_list(), old(self).link_list(), final(self).link_list(), file_id@, res, now),
    {
        let now = now_ms();
        let r = self.link_at(file_id, now);
        assert(linked_at(old(self).file_list(), old(self).link_list(), self.link_list(), file_id@, r, now));
        r
    }

    /// The file a token stands for at `now`, if the link exists and has
    /// not expired.
    pub fn resolve_link_at(&self, token: &str, now: u64) -> (res: Option<&str>)
        requires
            self.wf(),
        ensures
            match resolution(self.link_list(), token@, now) {
                Some(f) => res matches Some(r) && r@ == f,
                None => res is None,
            },
    {
        match self.find_link(token) {
            Some(i) => {
                proof {
                    let k = link_index(self.links@, token@);
                    assert(self.links@[i as int].token@ == token@);
                    if k != i as int {
                        assert(self.links@[k].token@ == token@);
                        if k < i as int {
                            assert(self.link_list()[k].token@ != self.link_list()[i as int].token@);
                        } else {
                            assert(self.link_list()[i as int].token@ != self.link_list()[k].token@);
                        }
                    }
                }
                let l = &self.links[i];
                if now.saturating_sub(l.created_at_ms) > l.ttl_ms {
                    None
                } else {
                    Some(l.file_id.as_str())
                }
            },
            None => None,
        }
    }

    /// The file a token stands for now.
    pub fn resolve_link(&self, token: &str) -> (res: Option<&str>)
        requires
            self.wf(),
        ensures
            exists|now: u64| match #[trigger] resolution(self.link_list(), token@, now) {
                Some(f) => res matches Some(r) && r@ == f,
                None => res is None,
            },
    {
        let now = now_ms();
        self.resolve_link_at(token, now)
    }

    /// Deletes a file's record, releases its bytes from the quota and
    /// drops every link to it; returns the bytes freed, or `None` when
    /// there is no such file.
    pub fn delete(&mut self, id: &str) -> (res: Option<u64>)
        requires
            old(self).wf(),
        ensures
            final(self).wf(),
            final(self).root_dir() == old(self).root_dir(),
            ({
                let k = file_index(old(self).file_list(), id@);
                if k < 0 {
                    res is None && *final(self) == *old(self)
                } else {
                    let size = old(self).file_list()[k].size;
                    &&& res == Some(size)
                    &&& final(self).file_list() == old(self).file_list().remove(k)
                    &&& final(self).link_list() == old(self).link_list().filter(|l: PublicLink| l.file_id@ != id@)
                    &&& final(self).quota_state() == (Quota {
                        used: if old(self).quota_state().used >= size { (old(self).quota_state().used - size) as u64 } else { 0 },
                        ..old(self).quota_state()
                    })
                }
            }),
            forall|i: int| 0 <= i < final(self).link_list().len() ==> (#[trigger] final(self).link_list()[i]).file_id@ != id@ || file_index(old(self).file_list(), id@) < 0,
            old(self).quota_tracks() ==> final(self).quota_tracks(),
    {
        let ghost fs = self.files@;
        let i = match self.find_file(id) {
            Some(i) => i,
            None => return None,
        };
        proof {
            let k = file_index(fs, id@);
            assert(fs[i as int].id@ == id@);
            if k != i as int {
                assert(fs[k].id@ == id@);
                if k < i as int {
                    assert(self.file_list()[k].id@ != self.file_list()[i as int].id@);
                } else {
                    assert(self.file_list()[i as int].id@ != self.file_list()[k].id@);
                }
            }
        }
        let m = self.files.remove(i);
        let freed = m.size;
        proof {
            lemma_stored_remove(fs, i as int);
        }
        proof {
            assert forall|a: int, b: int| 0 <= a < b < self.files@.len() implies (#[trigger] self.files@[a]).id@ != (#[trigger] self.files@[b]).id@ by {
                let a0 = if a < i { a } else { a + 1 };
                let b0 = if b < i { b } else { b + 1 };
                assert(self.files@[a] == fs[a0]);
                assert(self.files@[b] == fs[b0]);
            }
        }
        assert(self.link_list() == old(self).link_list());
        assert(forall|i: int, j: int|
            0 <= i < j < self.link_list().len() ==> (#[trigger] self.link_list()[i]).token@ != (
            #[trigger] self.link_list()[j]).token@) by {
            assert(forall|i: int, j: int|
                0 <= i < j < old(self).link_list().len() ==> (#[trigger] old(self).link_list()[i]).token@ != (
                #[trigger] old(self).link_list()[j]).token@);
        }
        self.drop_links_to(id);
        self.quota.used = self.quota.used.saturating_sub(freed);
        proof {
            assert(forall|i: int, j: int|
                0 <= i < j < self.link_list().len() ==> (#[trigger] self.link_list()[i]).token@ != (
                #[trigger] self.link_list()[j]).token@);
            assert(forall|i: int, j: int|
                0 <= i < j < self.file_list().len() ==> (#[trigger] self.file_list()[i]).id@ != (
                #[trigger] self.file_list()[j]).id@);
        }
        Some(freed)
    }

    /// Drops every link to the file `id`.
    fn drop_links_to(&mut self, id: &str)
        requires
            forall|i: int, j: int|
                0 <= i < j < old(self).link_list().len() ==> (#[trigger] old(self).link_list()[i]).token@ != (
                #[trigger] old(self).link_list()[j]).token@,
        ensures
            final(self).files@ == old(self).files@,
            final(self).quota == old(self).quota,
            final(self).root == old(self).root,
            final(self).link_list() == old(self).link_list().filter(|l: PublicLink| l.file_id@ != id@),
            forall|i: int| 0 <= i < final(self).link_list().len() ==> (#[trigger] final(self).link_list()[i]).file_id@ != id@,
            forall|i: int, j: int|
                0 <= i < j < final(self).link_list().len() ==> (#[trigger] final(self).link_list()[i]).token@ != (
                #[trigger] final(self).link_list()[j]).token@,
    {
        let ghost ls = self.links@;
        let ghost pred = |l: PublicLink| l.file_id@ != id@;
        let n = self.links.len();
        let mut kept: Vec<PublicLink> = Vec::new();
        let mut j: usize = 0;
        proof {
            reveal(Seq::filter);
            assert(ls.take(0) =~= Seq::<PublicLink>::empty());
        }
        while j < n
            invariant
                0 <= j <= n,
                n == ls.len(),
                self.links@ == ls,
                pred == (|l: PublicLink| l.file_id@ != id@),
                kept@ == ls.take(j as int).filter(pred),
                forall|a: int| 0 <= a < kept@.len() ==> (#[trigger] kept@[a]).file_id@ != id@,
                forall|a: int| 0 <= a < kept@.len() ==> exists|b: int| 0 <= b < j && #[trigger] kept@[a] == ls[b],
                forall|a: int, b: int| 0 <= a < b < kept@.len() ==> exists|c: int, d: int| 0 <= c < d < j && (#[trigger] kept@[a]) == ls[c] && (#[trigger] kept@[b]) == ls[d],
            decreases n - j,
        {
            proof {
                reveal(Seq::filter);
                assert(ls.take(j + 1).drop_last() =~= ls.take(j as int));
                assert(ls.take(j + 1).last() == ls[j as int]);
                assert(ls.take(j + 1).filter(pred) == if pred(ls[j as int]) {
                    ls.take(j as int).filter(pred).push(ls[j as int])
                } else {
                    ls.take(j as int).filter(pred)
                });
            }
            if !str_eq(self.links[j].file_id.as_str(), id) {
                assert(pred(ls[j as int]));
                let l = &self.links[j];
                let c = PublicLink { token: l.token.clone(), file_id: l.file_id.clone(), created_at_ms: l.created_at_ms, ttl_ms: l.ttl_ms };
                let ghost k0 = kept@;
                kept.push(c);
                proof {
                    assert forall|a: int, b: int| 0 <= a < b < kept@.len() implies exists|c: int, d: int| 0 <= c < d < j + 1 && (#[trigger] kept@[a]) == ls[c] && (#[trigger] kept@[b]) == ls[d] by {
                        if b < k0.len() {
                            assert(kept@[a] == k0[a]);
                            assert(kept@[b] == k0[b]);
                        } else {
                            assert(kept@[a] == k0[a]);
                            let c = choose|c: int| 0 <= c < j && #[trigger] k0[a] == ls[c];
                            assert(kept@[b] == ls[j as int]);
                            assert(0 <= c < j && kept@[a] == ls[c] && kept@[b] == ls[j as int]);
                        }
                    }
                    assert forall|a: int| 0 <= a < kept@.len() implies exists|b: int| 0 <= b < j + 1 && #[trigger] kept@[a] == ls[b] by {
                        if a < k0.len() {
                            assert(kept@[a] == k0[a]);
                        } else {
                            assert(kept@[a] == ls[j as int]);
                        }
                    }
                    assert forall|a: int| 0 <= a < kept@.len() implies (#[trigger] kept@[a]).file_id@ != id@ by {
                        if a < k0.len() {
                            assert(kept@[a] == k0[a]);
                        }
                    }
                }
            } else {
                assert(!pred(ls[j as int]));
            }
            j = j + 1;
        }
        proof {
            assert(ls.take(n as int) =~= ls);
            assert forall|a: int, b: int| 0 <= a < b < kept@.len() implies (#[trigger] kept@[a]).token@ != (#[trigger] kept@[b]).token@ by {
                let (c, d) = choose|c: int, d: int| 0 <= c < d < n && (#[trigger] kept@[a]) == ls[c] && (#[trigger] kept@[b]) == ls[d];
                assert(old(self).link_list()[c].token@ != old(self).link_list()[d].token@);
            }
        }
        self.links = kept;
    }

    /// Drops the links expired at `now`; returns how many.
    pub fn sweep_links_at(&mut self, now: u64) -> (res: usize)
        requires
            old(self).wf(),
        ensures
            final(self).wf(),
            final(self).file_list() == old(self).file_list(),
            final(self).quota_state() == old(self).quota_state(),
            final(self).root_dir() == old(self).root_dir(),
            final(self).link_list() == old(self).link_list().filter(|l: PublicLink| link_live(l.created_at_ms, l.ttl_ms, now)),
            res == old(self).link_list().len() - final(self).link_list().len(),
    {
        let ghost ls = self.links@;
        let ghost pred = |l: PublicLink| link_live(l.created_at_ms, l.ttl_ms, now);
        let n = self.links.len();
        let mut kept: Vec<PublicLink> = Vec::new();
        let mut j: usize = 0;
        proof {
            reveal(Seq::filter);
            assert(ls.take(0) =~= Seq::<PublicLink>::empty());
        }
        while j < n
            invariant
                0 <= j <= n,
                n == ls.len(),
                self.links@ == ls,
                pred == (|l: PublicLink| link_live(l.created_at_ms, l.ttl_ms, now)),
                kept@ == ls.take(j as int).filter(pred),
                kept@.len() <= j,
                forall|a: int| 0 <= a < kept@.len() ==> exists|b: int| 0 <= b < j && #[trigger] kept@[a] == ls[b],
                forall|a: int, b: int| 0 <= a < b < kept@.len() ==> exists|c: int, d: int| 0 <= c < d < j && (#[trigger] kept@[a]) == ls[c] && (#[trigger] kept@[b]) == ls[d],
            decreases n - j,
        {
            proof {
                reveal(Seq::filter);
                assert(ls.take(j + 1).drop_last() =~= ls.take(j as int));
                assert(ls.take(j + 1).last() == ls[j as int]);
                assert(ls.take(j + 1).filter(pred) == if pred(ls[j as int]) {
                    ls.take(j as int).filter(pred).push(ls[j as int])
                } else {
                    ls.take(j as int).filter(pred)
                });
            }
            let l = &self.links[j];
            if now.saturating_sub(l.created_at_ms) <= l.ttl_ms {
                assert(pred(ls[j as int]));
                let c = PublicLink { token: l.token.clone(), file_id: l.file_id.clone(), created_at_ms: l.created_at_ms, ttl_ms: l.ttl_ms };
                let ghost k0 = kept@;
                kept.push(c);
                proof {
                    assert forall|a: int, b: int| 0 <= a < b < kept@.len() implies exists|c: int, d: int| 0 <= c < d < j + 1 && (#[trigger] kept@[a]) == ls[c] && (#[trigger] kept@[b]) == ls[d] by {
                        if b < k0.len() {
                            assert(kept@[a] == k0[a]);
                            assert(kept@[b] == k0[b]);
                        } else {
                            assert(kept@[a] == k0[a]);
                            let c = choose|c: int| 0 <= c < j && #[trigger] k0[a] == ls[c];
                            assert(kept@[b] == ls[j as int]);
                            assert(0 <= c < j && kept@[a] == ls[c] && kept@[b] == ls[j as int]);
                        }
                    }
                    assert forall|a: int| 0 <= a < kept@.len() implies exists|b: int| 0 <= b < j + 1 && #[trigger] kept@[a] == ls[b] by {
                        if a < k0.len() {
                            assert(kept@[a] == k0[a]);
                        } else {
                            assert(kept@[a] == ls[j as int]);
                        }
                    }
                }
            } else {
                assert(!pred(ls[j as int]));
            }
            j = j + 1;
        }
        proof {
            assert(ls.take(n as int) =~= ls);
            assert forall|a: int, b: int| 0 <= a < b < kept@.len() implies (#[trigger] kept@[a]).token@ != (#[trigger] kept@[b]).token@ by {
                let (c, d) = choose|c: int, d: int| 0 <= c < d < n && (#[trigger] kept@[a]) == ls[c] && (#[trigger] kept@[b]) == ls[d];
                assert(old(self).link_list()[c].token@ != old(self).link_list()[d].token@);
            }
        }
        let removed = n - kept.len();
        self.links = kept;
        proof {
            assert(forall|i: int, j: int|
                0 <= i < j < self.link_list().len() ==> (#[trigger] self.link_list()[i]).token@ != (
                #[trigger] self.link_list()[j]).token@);
            assert(forall|i: int, j: int|
                0 <= i < j < self.file_list().len() ==> (#[trigger] self.file_list()[i]).id@ != (
                #[trigger] self.file_list()[j]).id@);
        }
        removed
    }

    /// Drops the links expired now; returns how many.
    pub fn sweep_links(&mut self) -> (res: usize)
        requires
            old(self).wf(),
        ensures
            final(self).wf(),
            final(self).file_list() == old(self).file_list(),
            final(self).quota_state() == old(self).quota_state(),
            final(self).root_dir() == old(self).root_dir(),
            exists|now: u64| final(self).link_list() == #[trigger] live_links(old(self).link_list(), now),
            res == old(self).link_list().len() - final(self).link_list().len(),
    {
        let now = now_ms();
        let r = self.sweep_links_at(now);
        assert(self.link_list() == live_links(old(self).link_list(), now));
        r
    }

    /// The quota.
    pub fn quota(&self) -> (res: Quota)
        ensures
            res == self.quota_state(),
    {
        self.quota
    }

    /// Replaces the quota.
    pub fn set_quota(&mut self, q: Quota)
        ensures
            final(self).quota_state() == q,
            final(self).file_list() == old(self).file_list(),
            final(self).link_list() == old(self).link_list(),
            final(self).root_dir() == old(self).root_dir(),
    {
        self.quota = q;
    }

    /// The number of stored files.
    pub fn len(&self) -> (res: usize)
        ensures
            res == self.file_list().len(),
    {
        self.files.len()
    }

    /// The directory files are stored in.
    pub fn root(&self) -> (res: &str)
        ensures
            res@ == self.root_dir(),
    {
        self.root.as_str()
    }
}

/// The links still live at `now`, in order.
pub open spec fn live_links(links: Seq<PublicLink>, now: u64) -> Seq<PublicLink> {
    links.filter(|l: PublicLink| link_live(l.created_at_ms, l.ttl_ms, now))
}

/// No two links share a token.
pub open spec fn unique_tokens(links: Seq<PublicLink>) -> bool {
    forall|i: int, j: int| 0 <= i < j < links.len() ==> (#[trigger] links[i]).token@ != (#[trigger] links[j]).token@
}

/// A link resolves to the file it was issued for until its 24 hours are
/// up: after issuing at `now` a link to a stored file, its token resolves
/// to that file at any time `t` from `now` to `now` plus the lifetime, and
/// to nothing after.
pub proof fn lemma_link_resolves_for_a_day(
    files: Seq<FileMeta>,
    before: Seq<PublicLink>,
    after: Seq<PublicLink>,
    file_id: Seq<char>,
    res: Option<String>,
    now: u64,
    t: u64,
)
    requires
        linked_at(files, before, after, file_id, res, now),
        file_index(files, file_id) >= 0,
        unique_tokens(after),
        t >= now,
    ensures
        res matches Some(tok) && resolution(after, tok@, t) == (if t - now <= LINK_TTL_MS {
            Some(file_id)
        } else {
            None
        }),
{
    let tok = res->Some_0;
    let k = link_index(before, tok@);
    let p = if k >= 0 { k } else { before.len() as int };
    assert(after[p].token@ == tok@);
    let q = link_index(after, tok@);
    assert(q >= 0);
    if q != p {
        if q < p {
            assert(after[q].token@ != after[p].token@);
        } else {
            assert(after[p].token@ != after[q].token@);
        }
    }
}

/// Deleting a file leaves none of its links: a token that named a link to
/// the file resolves to nothing afterwards, at any time.
pub proof fn lemma_deleted_file_links_resolve_nowhere(links: Seq<PublicLink>, id: Seq<char>, i: int, t: u64)
    requires
        unique_tokens(links),
        0 <= i < links.len(),
        links[i].file_id@ == id,
    ensures
        resolution(links.filter(|l: PublicLink| l.file_id@ != id), links[i].token@, t) is None,
{
    let pred = |l: PublicLink| l.file_id@ != id;
    let kept = links.filter(pred);
    let tok = links[i].token@;
    let q = link_index(kept, tok);
    if q >= 0 {
        let l = kept[q];
        assert(kept.contains(l));
        links.lemma_filter_contains_rev(pred, l);
        kept.lemma_filter_pred(pred, q);
        let j = choose|j: int| 0 <= j < links.len() && links[j] == l;
        if j < i {
            assert(links[j].token@ != links[i].token@);
        } else if j > i {
            assert(links[i].token@ != links[j].token@);
        }
    }
}

} // verus!
