//! End-to-end messages: a plaintext is encrypted under the session key,
//! the ciphertext is split 4-of-7, and the seven fragments travel as text
//! lines. The recipient parses the lines, recombines any four fragments
//! and decrypts.
//!
//! The session key and the key-agreement ciphertext that accompanies the
//! fragments are produced by the caller's key exchange; this module carries
//! the ciphertext and the sender's public key as bytes.

use vstd::prelude::*;
use crate::error::PolygoneError;
use crate::text::seq_starts_with;
use crate::numfmt::{hex_fixed, parse_unsigned, parse_unsigned_u64, push_hex_fixed};
use crate::shamir::{
    distinct_points, drawn_from, fragment_data, is_dealing, lemma_reconstruct_after_split,
    reconstruct, reconstruction, split,
};
use crate::symmetric::{decrypt, decryption, encrypt, SessionKey, MAX_PLAINTEXT};
use crate::text::{
    chars_of, find_char, first_index_of, hex_decode, hex_decoded, hex_of, is_white_space,
    lemma_first_index_at, lemma_hex_roundtrip, owned, push_char, push_hex, push_str,
    split_lines, string_from_chars, trim, trim_end, trim_start, trimmed,
};

verus! {

/// A message fragment as it travels: its index (1-based) and share bytes.
#[derive(Debug, Clone)]
pub struct Fragment {
    /// Fragment index (1..=7).
    pub index: u8,
    /// Shamir share bytes.
    pub share: Vec<u8>,
}

/// The text form of a fragment: two lowercase hex digits of the index, a
/// colon, then the share in lowercase hex.
pub open spec fn fragment_text(index: u8, share: Seq<u8>) -> Seq<char> {
    hex_fixed(index as nat, 2) + ":"@ + hex_of(share)
}

/// What reading a fragment's text gives: trimmed, split at the first
/// colon, the index read as a decimal `u8` and the rest as hex.
pub open spec fn fragment_parsed(s: Seq<char>) -> Option<(u8, Seq<u8>)> {
    let t = trimmed(s);
    let k = first_index_of(t, ':');
    if k < 0 {
        None
    } else {
        match parse_unsigned(t.take(k), 255) {
            Some(v) => match hex_decoded(t.skip(k + 1)) {
                Some(b) => Some((v as u8, b)),
                None => None,
            },
            None => None,
        }
    }
}

impl Fragment {
    /// The text form: `{index:02x}:{share hex}`.
    pub fn to_hex(&self) -> (res: String)
        ensures
            res@ == fragment_text(self.index, self.share@),
    {
        let mut s = String::new();
        push_hex_fixed(&mut s, self.index as u64, 2);
        push_char(&mut s, ':');
        push_hex(&mut s, self.share.as_slice());
        proof {
            reveal_strlit(":");
            assert(s@ =~= fragment_text(self.index, self.share@));
        }
        s
    }

    /// Reads the text form; any malformation is `ParseFragment`.
    pub fn from_hex(s: &str) -> (res: Result<Fragment, PolygoneError>)
        ensures
            match fragment_parsed(s@) {
                Some((i, b)) => res matches Ok(f) && f.index == i && f.share@ == b,
                None => res matches Err(e) && e is ParseFragment,
            },
    {
        let t = trim(s);
        let cs = chars_of(t.as_str());
        let k = match find_char(cs.as_slice(), 0, ':') {
            Some(k) => k,
            None => {
                proof {
                    crate::text::lemma_first_index_of(cs@, ':');
                }
                return Err(PolygoneError::ParseFragment);
            },
        };
        proof {
            lemma_first_index_at(cs@, ':', k as int);
            assert(cs@.take(k as int) =~= cs@.subrange(0, k as int));
        }
        let head = vstd::slice::slice_subrange(cs.as_slice(), 0, k);
        let index = match parse_unsigned_u64(head, 255) {
            Some(v) => v,
            None => return Err(PolygoneError::ParseFragment),
        };
        let rest = string_from_chars(cs.as_slice(), k + 1, cs.len());
        proof {
            assert(rest@ =~= cs@.skip(k + 1));
        }
        match hex_decode(rest.as_str()) {
            Ok(share) => Ok(Fragment { index: index as u8, share }),
            Err(_) => Err(PolygoneError::ParseFragment),
        }
    }
}

/// Reading the text form of a fragment whose index is below 10 gives the
/// fragment back. (The index is written in hex but read in decimal, so an
/// index of 10 or more does not come back.)
#[verifier::spinoff_prover]
#[verifier::rlimit(40)]
pub proof fn lemma_fragment_roundtrip(index: u8, share: Seq<u8>)
    requires
        index < 10,
    ensures
        fragment_parsed(fragment_text(index, share)) == Some((index, share)),
{
    let s = fragment_text(index, share);
    let h = hex_of(share);
    reveal_strlit(":");
    assert(":"@ =~= seq![':']);
    assert(hex_fixed(index as nat, 2) =~= seq!['0', ((index as int) + 48) as char]) by {
        assert(hex_fixed(0, 0) =~= Seq::<char>::empty());
        assert(hex_fixed(index as nat / 16, 1) =~= seq!['0']);
    }
    assert(s[0] == '0');
    assert(s[1] == ((index as int) + 48) as char);
    assert(s[2] == ':');
    assert(trim_start(s) == s);
    lemma_hex_roundtrip(share);
    assert(forall|i: int| 0 <= i < h.len() ==> crate::text::is_hex_char(#[trigger] h[i]));
    if h.len() > 0 {
        assert(s.last() == h.last());
        assert(crate::text::is_hex_char(h[h.len() - 1]));
    } else {
        assert(s.last() == ':');
    }
    assert(trim_end(s) == s);
    assert(trimmed(s) == s);
    lemma_first_index_at(s, ':', 2);
    assert(s.take(2) =~= seq!['0', ((index as int) + 48) as char]);
    assert(s.skip(3) =~= h);
    let d = s.take(2);
    assert(crate::numfmt::unsigned_digits(d) == d);
    assert(d.drop_last() =~= seq!['0']);
    assert(seq!['0'].drop_last() =~= Seq::<char>::empty());
    assert(('0' as int) == 48);
    assert(seq!['0'].last() == '0');
    assert(crate::numfmt::digits_value(Seq::<char>::empty()) == 0);
    assert(crate::numfmt::digits_value(seq!['0']) == 0);
    assert(d.last() == ((index as int) + 48) as char);
    assert(crate::numfmt::digits_value(d) == crate::numfmt::digits_value(d.drop_last()) * 10 + ((
    d.last() as int - 48) as nat));
    assert(crate::numfmt::digits_value(d) == index);
}

/// A fragment as plain values.
pub open spec fn fragment_view(f: Fragment) -> (u8, Seq<u8>) {
    (f.index, f.share@)
}

/// The fragments as plain values.
pub open spec fn fragment_views(fs: Seq<Fragment>) -> Seq<(u8, Seq<u8>)> {
    fs.map_values(|f: Fragment| fragment_view(f))
}

/// The `FRAG:` lines of a list of fragments, each ended by a newline.
pub open spec fn frag_lines(fs: Seq<(u8, Seq<u8>)>) -> Seq<char>
    decreases fs.len(),
{
    if fs.len() == 0 {
        Seq::empty()
    } else {
        frag_lines(fs.drop_last()) + "FRAG:"@ + fragment_text(fs.last().0, fs.last().1) + "\n"@
    }
}

/// The text form of a send output: the key-agreement ciphertext, the
/// sender's public key, then one line per fragment.
pub open spec fn output_text(kem_ct: Seq<u8>, sender_pk: Seq<u8>, fs: Seq<(u8, Seq<u8>)>) -> Seq<char> {
    "KEM_CT:"@ + hex_of(kem_ct) + "\n"@ + "SENDER_PK:"@ + hex_of(sender_pk) + "\n"@ + frag_lines(fs)
}

/// Why a send output could not be parsed.
pub enum ParseFailure {
    /// A key line does not hold hex.
    BadKey,
    /// A fragment line is malformed.
    BadFragment,
    /// No `KEM_CT:` line.
    NoKemCiphertext,
    /// No `SENDER_PK:` line.
    NoSenderKey,
}

/// What has been read so far: the key-agreement ciphertext, the sender's
/// key, and the fragments in order.
pub type ParseState = (Option<Seq<u8>>, Option<Seq<u8>>, Seq<(u8, Seq<u8>)>);

/// The bytes of a key line's hex (trimmed first).
pub open spec fn key_bytes(s: Seq<char>) -> Option<Seq<u8>> {
    hex_decoded(trimmed(s))
}

/// Reading one line: blank lines are skipped, `KEM_CT:` and `SENDER_PK:`
/// set their field (a later line wins), `FRAG:` adds a fragment, anything
/// else is ignored.
pub open spec fn parse_line(st: ParseState, line: Seq<char>) -> Result<ParseState, ParseFailure> {
    let l = trimmed(line);
    if l.len() == 0 {
        Ok(st)
    } else if seq_starts_with(l, "KEM_CT:"@) {
        match key_bytes(l.skip(7)) {
            Some(b) => Ok((Some(b), st.1, st.2)),
            None => Err(ParseFailure::BadKey),
        }
    } else if seq_starts_with(l, "SENDER_PK:"@) {
        match key_bytes(l.skip(10)) {
            Some(b) => Ok((st.0, Some(b), st.2)),
            None => Err(ParseFailure::BadKey),
        }
    } else if seq_starts_with(l, "FRAG:"@) {
        match fragment_parsed(l.skip(5)) {
            Some(f) => Ok((st.0, st.1, st.2.push(f))),
            None => Err(ParseFailure::BadFragment),
        }
    } else {
        Ok(st)
    }
}

/// Reading the lines in order from state `st`; the first failure stops.
pub open spec fn parse_lines(lines: Seq<Seq<char>>, st: ParseState) -> Result<ParseState, ParseFailure>
    decreases lines.len(),
{
    if lines.len() == 0 {
        Ok(st)
    } else {
        match parse_line(st, lines[0]) {
            Ok(st2) => parse_lines(lines.drop_first(), st2),
            Err(e) => Err(e),
        }
    }
}

/// What parsing a text gives: the two keys and the fragments, or the
/// reason it fails.
pub open spec fn parsed_output(s: Seq<char>) -> Result<(Seq<u8>, Seq<u8>, Seq<(u8, Seq<u8>)>), ParseFailure> {
    match parse_lines(split_lines(s), (None, None, Seq::empty())) {
        Ok((Some(k), Some(p), fs)) => Ok((k, p, fs)),
        Ok((None, _, _)) => Err(ParseFailure::NoKemCiphertext),
        Ok((Some(_), None, _)) => Err(ParseFailure::NoSenderKey),
        Err(e) => Err(e),
    }
}

/// The full output of a send: key-agreement ciphertext, sender's public
/// key, and the fragments.
#[derive(Debug, Clone)]
pub struct SendOutput {
    /// Key-agreement ciphertext for the recipient.
    pub kem_ct: Vec<u8>,
    /// Sender's public key.
    pub sender_pk: Vec<u8>,
    /// The fragments.
    pub fragments: Vec<Fragment>,
}

/// The error a parse failure is reported with.
pub open spec fn failure_error(f: ParseFailure, e: PolygoneError) -> bool {
    match f {
        ParseFailure::BadKey => e is KeyFile,
        ParseFailure::BadFragment => e is ParseFragment,
        ParseFailure::NoKemCiphertext => e matches PolygoneError::MissingField(m) && m@ == "KEM_CT"@,
        ParseFailure::NoSenderKey => e matches PolygoneError::MissingField(m) && m@ == "SENDER_PK"@,
    }
}

fn read_key(s: &str) -> (res: Result<Vec<u8>, PolygoneError>)
    ensures
        match key_bytes(s@) {
            Some(b) => res matches Ok(v) && v@ == b,
            None => res matches Err(PolygoneError::KeyFile(m)) && seq_starts_with(m@, "hex decode: "@),
        },
{
    let t = trim(s);
    match hex_decode(t.as_str()) {
        Ok(v) => Ok(v),
        Err(e) => {
            let mut m = owned("hex decode: ");
            push_str(&mut m, e.as_str());
            proof {
                assert(m@.take("hex decode: "@.len() as int) =~= "hex decode: "@);
            }
            Err(PolygoneError::KeyFile(m))
        },
    }
}

impl SendOutput {
    /// The plain view of this output.
    pub open spec fn view_parts(&self) -> (Seq<u8>, Seq<u8>, Seq<(u8, Seq<u8>)>) {
        (self.kem_ct@, self.sender_pk@, fragment_views(self.fragments@))
    }

    /// The text form, one `KEY:value` line each.
    pub fn display(&self) -> (res: String)
        ensures
            res@ == output_text(self.kem_ct@, self.sender_pk@, fragment_views(self.fragments@)),
    {
        let mut out = String::new();
        push_str(&mut out, "KEM_CT:");
        push_hex(&mut out, self.kem_ct.as_slice());
        push_str(&mut out, "\n");
        push_str(&mut out, "SENDER_PK:");
        push_hex(&mut out, self.sender_pk.as_slice());
        push_str(&mut out, "\n");
        let ghost head = out@;
        let ghost fv = fragment_views(self.fragments@);
        proof {
            assert(fv.take(0) =~= Seq::<(u8, Seq<u8>)>::empty());
            assert(head + frag_lines(fv.take(0)) =~= head);
        }
        let mut i: usize = 0;
        while i < self.fragments.len()
            invariant
                0 <= i <= self.fragments@.len(),
                fv == fragment_views(self.fragments@),
                out@ == head + frag_lines(fv.take(i as int)),
            decreases self.fragments@.len() - i,
        {
            push_str(&mut out, "FRAG:");
            let t = self.fragments[i].to_hex();
            push_str(&mut out, t.as_str());
            push_str(&mut out, "\n");
            proof {
                assert(fv.take(i + 1).drop_last() =~= fv.take(i as int));
                assert(fv.take(i + 1).last() == fragment_view(self.fragments@[i as int]));
                assert(out@ =~= head + frag_lines(fv.take(i + 1)));
            }
            i = i + 1;
        }
        proof {
            assert(fv.take(i as int) =~= fv);
            assert(out@ =~= output_text(self.kem_ct@, self.sender_pk@, fv));
        }
        out
    }

    /// Reads the text form back.
    pub fn parse(input: &str) -> (res: Result<SendOutput, PolygoneError>)
        ensures
            match parsed_output(input@) {
                Ok(v) => res matches Ok(o) && o.view_parts() == v,
                Err(f) => res matches Err(e) && failure_error(f, e),
            },
    {
        let cs = chars_of(input);
        let n = cs.len();
        let mut kem_ct: Option<Vec<u8>> = None;
        let mut sender_pk: Option<Vec<u8>> = None;
        let mut fragments: Vec<Fragment> = Vec::new();
        let mut start: usize = 0;
        let ghost s = input@;
        proof {
            assert(s.skip(0) =~= s);
            assert(fragment_views(fragments@) =~= Seq::<(u8, Seq<u8>)>::empty());
        }
        while start < n
            invariant
                0 <= start <= n,
                n == cs@.len(),
                cs@ == s,
                s == input@,
                parse_lines(split_lines(s), (None, None, Seq::empty())) == parse_lines(
                    split_lines(s.skip(start as int)),
                    (opt_view(kem_ct), opt_view(sender_pk), fragment_views(fragments@)),
                ),
            decreases n - start,
        {
            let ghost st = (opt_view(kem_ct), opt_view(sender_pk), fragment_views(fragments@));
            let ghost rest = s.skip(start as int);
            let end = match find_char(cs.as_slice(), start, '\n') {
                Some(k) => k,
                None => n,
            };
            let line = string_from_chars(cs.as_slice(), start, end);
            proof {
                crate::text::lemma_first_index_of(rest, '\n');
                if end < n {
                    lemma_first_index_at(rest, '\n', end - start);
                    assert(rest.take(end - start) =~= line@);
                    assert(rest.skip(end - start + 1) =~= s.skip(end + 1));
                } else {
                    assert(first_index_of(rest, '\n') < 0) by {
                        if first_index_of(rest, '\n') >= 0 {
                            assert(rest[first_index_of(rest, '\n')] == '\n');
                            assert(cs@[start + first_index_of(rest, '\n')] == '\n');
                        }
                    }
                    assert(rest =~= line@);
                    assert(s.skip(n as int) =~= Seq::<char>::empty());
                }
                assert(split_lines(rest)[0] == line@);
                let next: int = if end < n { end + 1 } else { n as int };
                assert(split_lines(rest).drop_first() == split_lines(s.skip(next)));
                assert(split_lines(rest).len() > 0);
                assert(parse_lines(split_lines(rest), st) == match parse_line(st, line@) {
                    Ok(st2) => parse_lines(split_lines(s.skip(next)), st2),
                    Err(e) => Err(e),
                });
            }
            let t = trim(line.as_str());
            if t.as_str().is_empty() {
            } else {
                match strip_prefix_owned(t.as_str(), "KEM_CT:") {
                    Some(r) => {
                        proof {
                            reveal_strlit("KEM_CT:");
                            assert("KEM_CT:"@.len() == 7);
                        }
                        match read_key(r.as_str()) {
                            Ok(v) => { kem_ct = Some(v); },
                            Err(e) => {
                                assert(parse_line(st, line@) == Err::<ParseState, ParseFailure>(ParseFailure::BadKey));
                                assert(parse_lines(split_lines(s), (None, None, Seq::empty())) == Err::<ParseState, ParseFailure>(ParseFailure::BadKey));
                                assert(parsed_output(s) == Err::<(Seq<u8>, Seq<u8>, Seq<(u8, Seq<u8>)>), ParseFailure>(ParseFailure::BadKey));
                                return Err(e);
                            },
                        }
                    },
                    None => match strip_prefix_owned(t.as_str(), "SENDER_PK:") {
                        Some(r) => {
                            proof {
                            reveal_strlit("SENDER_PK:");
                            assert("SENDER_PK:"@.len() == 10);
                        }
                            match read_key(r.as_str()) {
                                Ok(v) => { sender_pk = Some(v); },
                                Err(e) => {
                                    assert(parse_line(st, line@) == Err::<ParseState, ParseFailure>(ParseFailure::BadKey));
                                assert(parse_lines(split_lines(s), (None, None, Seq::empty())) == Err::<ParseState, ParseFailure>(ParseFailure::BadKey));
                                assert(parsed_output(s) == Err::<(Seq<u8>, Seq<u8>, Seq<(u8, Seq<u8>)>), ParseFailure>(ParseFailure::BadKey));
                                    return Err(e);
                                },
                            }
                        },
                        None => match strip_prefix_owned(t.as_str(), "FRAG:") {
                            Some(r) => {
                                proof {
                            reveal_strlit("FRAG:");
                            assert("FRAG:"@.len() == 5);
                        }
                                match Fragment::from_hex(r.as_str()) {
                                    Ok(f) => {
                                        let ghost fs0 = fragments@;
                                        fragments.push(f);
                                        proof {
                                            assert(fragment_views(fragments@) =~= fragment_views(fs0).push(fragment_view(f)));
                                        }
                                    },
                                    Err(e) => {
                                        assert(parse_line(st, line@) == Err::<ParseState, ParseFailure>(ParseFailure::BadFragment));
                                assert(parse_lines(split_lines(s), (None, None, Seq::empty())) == Err::<ParseState, ParseFailure>(ParseFailure::BadFragment));
                                assert(parsed_output(s) == Err::<(Seq<u8>, Seq<u8>, Seq<(u8, Seq<u8>)>), ParseFailure>(ParseFailure::BadFragment));
                                        return Err(e);
                                    },
                                }
                            },
                            None => {},
                        },
                    },
                }
            }
            start = if end < n { end + 1 } else { n };
        }
        proof {
            assert(s.skip(n as int) =~= Seq::<char>::empty());
        }
        let kem_ct = match kem_ct {
            Some(k) => k,
            None => return Err(PolygoneError::MissingField(owned("KEM_CT"))),
        };
        let sender_pk = match sender_pk {
            Some(p) => p,
            None => return Err(PolygoneError::MissingField(owned("SENDER_PK"))),
        };
        Ok(SendOutput { kem_ct, sender_pk, fragments })
    }
}

/// The plain view of an optional byte vector.
pub open spec fn opt_view(o: Option<Vec<u8>>) -> Option<Seq<u8>> {
    match o {
        Some(v) => Some(v@),
        None => None,
    }
}

fn strip_prefix_owned(s: &str, prefix: &str) -> (res: Option<String>)
    ensures
        res matches Some(r) ==> seq_starts_with(s@, prefix@) && r@ == s@.skip(prefix@.len() as int),
        res is None ==> !seq_starts_with(s@, prefix@),
{
    crate::text::strip_prefix(s, prefix)
}

/// The share bytes of some fragments.
pub open spec fn share_data(fs: Seq<(u8, Seq<u8>)>) -> Seq<Seq<u8>> {
    fs.map_values(|f: (u8, Seq<u8>)| f.1)
}

/// The fragments carry a four-of-n sharing of a ciphertext that decrypts,
/// under `key`, to the UTF-8 encoding of `plain`.
pub open spec fn carries(fs: Seq<(u8, Seq<u8>)>, key: Seq<u8>, plain: Seq<char>) -> bool {
    exists|ct: Seq<u8>|
        ct.len() >= 1 && #[trigger] is_dealing(share_data(fs), ct, 4) && decryption(ct, key) == Some(
            vstd::utf8::encode_utf8(plain),
        )
}

/// What a recipient reads from fragments under the session key: any four
/// recombine to the ciphertext, which decrypts to UTF-8 text; `None` when
/// any step fails.
pub open spec fn received(fs: Seq<(u8, Seq<u8>)>, key: Seq<u8>) -> Option<Seq<char>> {
    match reconstruction(fs.map_values(|f: (u8, Seq<u8>)| f.1), 4) {
        Err(_) => None,
        Ok(ct) => match decryption(ct, key) {
            None => None,
            Some(p) => if vstd::utf8::valid_utf8(p) {
                Some(vstd::utf8::decode_utf8(p))
            } else {
                None
            },
        },
    }
}

/// Encrypts `plaintext` under the session key and splits the ciphertext
/// into seven fragments, any four of which recover it; the key-agreement
/// ciphertext and the sender's key travel alongside. Reading the output
/// back under the same key gives `plaintext`.
pub fn send(plaintext: &str, session_key: &SessionKey, kem_ct: Vec<u8>, sender_pk: Vec<u8>) -> (res: Result<SendOutput, PolygoneError>)
    ensures
        res is Err <==> vstd::utf8::encode_utf8(plaintext@).len() > MAX_PLAINTEXT,
        res matches Err(e) ==> e is AeadError,
        res matches Ok(o) ==> {
            &&& o.kem_ct@ == kem_ct@
            &&& o.sender_pk@ == sender_pk@
            &&& o.fragments@.len() == 7
            &&& forall|i: int| 0 <= i < 7 ==> (#[trigger] o.fragments@[i]).index == i + 1
            &&& received(fragment_views(o.fragments@), session_key.bytes()) == Some(plaintext@)
            &&& carries(fragment_views(o.fragments@), session_key.bytes(), plaintext@)
        },
{
    let encrypted = match encrypt(plaintext.as_bytes(), session_key) {
        Ok(e) => e,
        Err(e) => return Err(e),
    };
    let shares = match split(encrypted.as_slice(), 4, 7) {
        Ok(s) => s,
        Err(e) => return Err(e),
    };
    let ghost datas = fragment_data(shares@);
    let mut fragments: Vec<Fragment> = Vec::new();
    let mut i: usize = 0;
    while i < shares.len()
        invariant
            0 <= i <= shares@.len(),
            shares@.len() == 7,
            datas == fragment_data(shares@),
            forall|k: int| 0 <= k < 7 ==> (#[trigger] shares@[k]).id.0 == k + 1,
            fragments@.len() == i,
            forall|k: int| 0 <= k < i ==> (#[trigger] fragments@[k]).index == k + 1 && fragments@[k].share@ == datas[k],
        decreases shares@.len() - i,
    {
        let d = shares[i].data.clone();
        assert(d@ =~= shares@[i as int].data@);
        let ghost before = fragments@;
        fragments.push(Fragment { index: shares[i].id.0, share: d });
        assert forall|k: int| 0 <= k < i + 1 implies (#[trigger] fragments@[k]).index == k + 1 && fragments@[k].share@ == datas[k] by {
            if k < i {
                assert(fragments@[k] == before[k]);
            }
        }
        i = i + 1;
    }
    proof {
        let fv = fragment_views(fragments@);
        let sel = fv.map_values(|f: (u8, Seq<u8>)| f.1);
        assert(sel =~= datas);
        assert(drawn_from(sel, datas)) by {
            assert forall|a: int| 0 <= a < sel.len() implies datas.contains(#[trigger] sel[a]) by {
                assert(sel[a] == datas[a]);
            }
        }
        assert(distinct_points(sel)) by {
            assert forall|a: int, b: int| 0 <= a < b < sel.len() implies (#[trigger] sel[a])[0] != (#[trigger] sel[b])[0] by {
                assert(datas[a][0] == a + 1);
                assert(datas[b][0] == b + 1);
            }
        }
        lemma_reconstruct_after_split(datas, encrypted@, 4, sel);
        vstd::utf8::encode_utf8_valid_utf8(plaintext@);
        vstd::utf8::encode_utf8_decode_utf8(plaintext@);
        assert(share_data(fv) =~= datas);
        assert(is_dealing(share_data(fv), encrypted@, 4));
    }
    Ok(SendOutput { kem_ct, sender_pk, fragments })
}

/// Recombines the ciphertext from the fragments (four are needed),
/// decrypts it under the session key and reads it as UTF-8.
pub fn receive(output: &SendOutput, session_key: &SessionKey) -> (res: Result<String, PolygoneError>)
    ensures
        res matches Ok(s) ==> received(fragment_views(output.fragments@), session_key.bytes()) == Some(s@),
        res is Err ==> received(fragment_views(output.fragments@), session_key.bytes()) is None,
        res matches Err(e) ==> match reconstruction(fragment_views(output.fragments@).map_values(|f: (u8, Seq<u8>)| f.1), 4) {
            Err(msg) => (e matches PolygoneError::ShamirReconstruct(m) && m@ == msg),
            Ok(ct) => if decryption(ct, session_key.bytes()) is None {
                e is Decrypt || e is AeadError
            } else {
                e is Message
            },
        },
{
    let ghost sel = fragment_views(output.fragments@).map_values(|f: (u8, Seq<u8>)| f.1);
    let mut frags: Vec<crate::shamir::Fragment> = Vec::new();
    let mut i: usize = 0;
    while i < output.fragments.len()
        invariant
            0 <= i <= output.fragments@.len(),
            sel == fragment_views(output.fragments@).map_values(|f: (u8, Seq<u8>)| f.1),
            frags@.len() == i,
            forall|k: int| 0 <= k < i ==> (#[trigger] frags@[k]).data@ == sel[k],
        decreases output.fragments@.len() - i,
    {
        let d = output.fragments[i].share.clone();
        assert(d@ =~= output.fragments@[i as int].share@);
        assert(sel[i as int] == output.fragments@[i as int].share@);
        let ghost before = frags@;
        frags.push(crate::shamir::Fragment { id: crate::shamir::FragmentId(output.fragments[i].index), data: d });
        assert forall|k: int| 0 <= k < i + 1 implies (#[trigger] frags@[k]).data@ == sel[k] by {
            if k < i {
                assert(frags@[k] == before[k]);
            }
        }
        i = i + 1;
    }
    proof {
        assert(fragment_data(frags@) =~= sel);
    }
    let ciphertext = match reconstruct(frags.as_slice(), 4) {
        Ok(c) => c,
        Err(e) => return Err(e),
    };
    let plaintext = match decrypt(ciphertext.as_slice(), session_key) {
        Ok(p) => p,
        Err(e) => return Err(e),
    };
    match crate::text::utf8_decode(plaintext) {
        Ok(s) => Ok(s),
        Err(e) => {
            let mut m = owned("UTF-8 decode: ");
            push_str(&mut m, e.as_str());
            Err(PolygoneError::Message(m))
        },
    }
}

/// A character of a fragment or key line: not white space, not a newline.
pub open spec fn plain_char(c: char) -> bool {
    !is_white_space(c) && c != '\n'
}

proof fn lemma_hex_plain(b: Seq<u8>)
    ensures
        forall|i: int| 0 <= i < hex_of(b).len() ==> plain_char(#[trigger] hex_of(b)[i]),
        forall|i: int| 0 <= i < hex_of(b).len() ==> crate::text::is_hex_char(#[trigger] hex_of(b)[i]),
{
    let h = hex_of(b);
    assert forall|i: int| 0 <= i < h.len() implies crate::text::is_hex_char(#[trigger] h[i]) && plain_char(h[i]) by {
        let x = b[i / 2] as int;
        assert(0 <= x / 16 < 16 && 0 <= x % 16 < 16);
    }
}

/// Trimming leaves a text alone whose first and last characters are plain.
proof fn lemma_trim_plain(s: Seq<char>)
    requires
        s.len() > 0,
        plain_char(s[0]),
        plain_char(s.last()),
    ensures
        trimmed(s) == s,
{
    assert(trim_start(s) == s);
    assert(trim_end(s) == s);
}

proof fn lemma_trim_hex(b: Seq<u8>)
    ensures
        trimmed(hex_of(b)) == hex_of(b),
{
    let h = hex_of(b);
    lemma_hex_plain(b);
    if h.len() > 0 {
        lemma_trim_plain(h);
    } else {
        assert(trim_start(h) == h);
        assert(trim_end(h) == h);
    }
}

/// A line with no newline, followed by one, splits into just that line.
proof fn lemma_split_one(a: Seq<char>)
    requires
        forall|i: int| 0 <= i < a.len() ==> a[i] != '\n',
    ensures
        split_lines(a + "\n"@) == seq![a],
{
    reveal_strlit("\n");
    let s = a + "\n"@;
    crate::text::lemma_first_index_at(s, '\n', a.len() as int);
    assert(s.take(a.len() as int) =~= a);
    assert(s.skip(a.len() as int + 1) =~= Seq::<char>::empty());
    crate::text::lemma_first_index_of(Seq::<char>::empty(), '\n');
    assert(split_lines(Seq::<char>::empty()) =~= Seq::<Seq<char>>::empty());
    assert(split_lines(s) =~= seq![a] + Seq::<Seq<char>>::empty());
    assert(seq![a] + Seq::<Seq<char>>::empty() =~= seq![a]);
}

/// Splitting a text that ends with a newline, then more, splits each part.
proof fn lemma_split_append(x: Seq<char>, y: Seq<char>)
    requires
        x.len() == 0 || x.last() == '\n',
    ensures
        split_lines(x + y) == split_lines(x) + split_lines(y),
    decreases x.len(),
{
    if x.len() == 0 {
        assert(x + y =~= y);
        crate::text::lemma_first_index_of(x, '\n');
        assert(split_lines(x) =~= Seq::<Seq<char>>::empty());
        assert(split_lines(x) + split_lines(y) =~= split_lines(y));
    } else {
        crate::text::lemma_first_index_of(x, '\n');
        let k = first_index_of(x, '\n');
        assert(k >= 0) by {
            if k < 0 {
                assert(x[x.len() - 1] != '\n');
            }
        }
        let xy = x + y;
        assert forall|j: int| 0 <= j < k implies xy[j] != '\n' by {
            assert(xy[j] == x[j]);
        }
        crate::text::lemma_first_index_at(xy, '\n', k);
        assert(xy.take(k) =~= x.take(k));
        let x2 = x.skip(k + 1);
        assert(xy.skip(k + 1) =~= x2 + y);
        if x2.len() > 0 {
            assert(x2.last() == x.last());
        }
        lemma_split_append(x2, y);
        assert(split_lines(xy) =~= seq![x.take(k)] + (split_lines(x2) + split_lines(y)));
        assert(split_lines(x) =~= seq![x.take(k)] + split_lines(x2));
    }
}

/// Parsing a concatenation of line lists parses the first, then the second.
proof fn lemma_parse_concat(a: Seq<Seq<char>>, b: Seq<Seq<char>>, st: ParseState)
    ensures
        parse_lines(a + b, st) == match parse_lines(a, st) {
            Ok(st2) => parse_lines(b, st2),
            Err(e) => Err(e),
        },
    decreases a.len(),
{
    if a.len() == 0 {
        assert(a + b =~= b);
    } else {
        assert((a + b)[0] == a[0]);
        assert((a + b).drop_first() =~= a.drop_first() + b);
        match parse_line(st, a[0]) {
            Ok(st2) => {
                lemma_parse_concat(a.drop_first(), b, st2);
            },
            Err(e) => {},
        }
    }
}

/// The text of a fragment with an index below 10: `0`, the digit, a
/// colon and plain hex.
proof fn lemma_fragment_text_plain(index: u8, share: Seq<u8>)
    requires
        index < 10,
    ensures
        fragment_text(index, share).len() >= 3,
        forall|i: int| 0 <= i < fragment_text(index, share).len() ==> plain_char(#[trigger] fragment_text(index, share)[i]),
{
    reveal_strlit(":");
    let t = fragment_text(index, share);
    let h = hex_of(share);
    assert(hex_fixed(index as nat, 2) =~= seq!['0', ((index as int) + 48) as char]) by {
        assert(hex_fixed(0, 0) =~= Seq::<char>::empty());
        assert(hex_fixed(index as nat / 16, 1) =~= seq!['0']);
    }
    lemma_hex_plain(share);
    assert forall|i: int| 0 <= i < t.len() implies plain_char(#[trigger] t[i]) by {
        if i >= 3 {
            assert(t[i] == h[i - 3]);
        }
    }
}

/// The lines of the fragments' text, and what reading them adds.
proof fn lemma_frag_lines(fs: Seq<(u8, Seq<u8>)>, st: ParseState)
    requires
        forall|i: int| 0 <= i < fs.len() ==> (#[trigger] fs[i]).0 < 10,
    ensures
        frag_lines(fs).len() == 0 || frag_lines(fs).last() == '\n',
        parse_lines(split_lines(frag_lines(fs)), st) == Ok::<ParseState, ParseFailure>((st.0, st.1, st.2 + fs)),
    decreases fs.len(),
{
    reveal_strlit("\n");
    reveal_strlit("FRAG:");
    reveal_strlit("KEM_CT:");
    reveal_strlit("SENDER_PK:");
    if fs.len() == 0 {
        crate::text::lemma_first_index_of(Seq::<char>::empty(), '\n');
        assert(st.2 + fs =~= st.2);
    } else {
        let f0 = fs.drop_last();
        let f = fs.last();
        lemma_frag_lines(f0, st);
        let prev = frag_lines(f0);
        let ft = fragment_text(f.0, f.1);
        let line = "FRAG:"@ + ft;
        lemma_fragment_text_plain(f.0, f.1);
        assert forall|i: int| 0 <= i < line.len() implies plain_char(#[trigger] line[i]) by {
            if i >= 5 {
                assert(line[i] == ft[i - 5]);
            }
        }
        assert(frag_lines(fs) =~= prev + (line + "\n"@));
        lemma_split_append(prev, line + "\n"@);
        lemma_split_one(line);
        let st1 = (st.0, st.1, st.2 + f0);
        lemma_parse_concat(split_lines(prev), seq![line], st);
        lemma_trim_plain(line);
        assert(line.skip(5) =~= ft);
        assert(!seq_starts_with(line, "KEM_CT:"@)) by {
            assert(line.take(7)[0] == 'F');
        }
        assert(!seq_starts_with(line, "SENDER_PK:"@)) by {
            if line.len() >= 10 {
                assert(line.take(10)[0] == 'F');
            }
        }
        assert(line.take(5) =~= "FRAG:"@);
        crate::message::lemma_fragment_roundtrip(f.0, f.1);
        assert(st1.2.push(f) =~= st.2 + fs);
        assert(seq![line].drop_first() =~= Seq::<Seq<char>>::empty());
        assert(frag_lines(fs).last() == '\n');
        assert(fragment_parsed(ft) == Some(f));
        assert(trimmed(line) == line);
        assert(seq_starts_with(line, "FRAG:"@));
        assert(parse_line(st1, line) == Ok::<ParseState, ParseFailure>((st.0, st.1, st1.2.push(f))));
        let st3: ParseState = (st.0, st.1, st1.2.push(f));
        assert(seq![line][0] == line);
        assert(parse_lines(seq![line].drop_first(), st3) == Ok::<ParseState, ParseFailure>(st3));
        assert(parse_lines(seq![line], st1) == Ok::<ParseState, ParseFailure>(st3));
        assert(split_lines(frag_lines(fs)) == split_lines(prev) + seq![line]);
    }
}

/// Reading the text form of a send output gives the output back, when
/// every fragment index is below 10 (the fragment indices of a send are
/// 1 to 7).
/// The `KEM_CT:` line of a key: plain, and read back as that key.
proof fn lemma_kem_line(k: Seq<u8>, st: ParseState)
    ensures
        forall|i: int| 0 <= i < ("KEM_CT:"@ + hex_of(k)).len() ==> plain_char(#[trigger] ("KEM_CT:"@ + hex_of(k))[i]),
        parse_line(st, "KEM_CT:"@ + hex_of(k)) == Ok::<ParseState, ParseFailure>((Some(k), st.1, st.2)),
{
    reveal_strlit("KEM_CT:");
    let kl = "KEM_CT:"@ + hex_of(k);
    lemma_hex_plain(k);
    assert forall|i: int| 0 <= i < kl.len() implies plain_char(#[trigger] kl[i]) by {
        if i >= 7 {
            assert(kl[i] == hex_of(k)[i - 7]);
        }
    }
    lemma_trim_plain(kl);
    lemma_trim_hex(k);
    assert(kl.take(7) =~= "KEM_CT:"@);
    assert(kl.skip(7) =~= hex_of(k));
    crate::text::lemma_hex_roundtrip(k);
}

/// The `SENDER_PK:` line of a key: plain, and read back as that key.
proof fn lemma_pk_line(p: Seq<u8>, st: ParseState)
    ensures
        forall|i: int| 0 <= i < ("SENDER_PK:"@ + hex_of(p)).len() ==> plain_char(#[trigger] ("SENDER_PK:"@ + hex_of(p))[i]),
        parse_line(st, "SENDER_PK:"@ + hex_of(p)) == Ok::<ParseState, ParseFailure>((st.0, Some(p), st.2)),
{
    reveal_strlit("KEM_CT:");
    reveal_strlit("SENDER_PK:");
    let pl = "SENDER_PK:"@ + hex_of(p);
    lemma_hex_plain(p);
    assert forall|i: int| 0 <= i < pl.len() implies plain_char(#[trigger] pl[i]) by {
        if i >= 10 {
            assert(pl[i] == hex_of(p)[i - 10]);
        }
    }
    lemma_trim_plain(pl);
    lemma_trim_hex(p);
    assert(!seq_starts_with(pl, "KEM_CT:"@)) by {
        assert(pl.take(7)[0] == 'S');
    }
    assert(pl.take(10) =~= "SENDER_PK:"@);
    assert(pl.skip(10) =~= hex_of(p));
    crate::text::lemma_hex_roundtrip(p);
}

/// Reading the text form of a send output gives the output back, when
/// every fragment index is below 10 (the fragment indices of a send are
/// 1 to 7).
pub proof fn lemma_parse_display(kem_ct: Seq<u8>, sender_pk: Seq<u8>, fs: Seq<(u8, Seq<u8>)>)
    requires
        forall|i: int| 0 <= i < fs.len() ==> (#[trigger] fs[i]).0 < 10,
    ensures
        parsed_output(output_text(kem_ct, sender_pk, fs)) == Ok::<(Seq<u8>, Seq<u8>, Seq<(u8, Seq<u8>)>), ParseFailure>((kem_ct, sender_pk, fs)),
{
    reveal_strlit("\n");
    let kl = "KEM_CT:"@ + hex_of(kem_ct);
    let pl = "SENDER_PK:"@ + hex_of(sender_pk);
    let rest = frag_lines(fs);
    let init: ParseState = (None, None, Seq::empty());
    let st1: ParseState = (Some(kem_ct), None, Seq::empty());
    let st2: ParseState = (Some(kem_ct), Some(sender_pk), Seq::empty());
    lemma_kem_line(kem_ct, init);
    lemma_pk_line(sender_pk, st1);
    lemma_frag_lines(fs, st2);
    assert(output_text(kem_ct, sender_pk, fs) =~= (kl + "\n"@) + ((pl + "\n"@) + rest));
    lemma_split_append(kl + "\n"@, (pl + "\n"@) + rest);
    lemma_split_append(pl + "\n"@, rest);
    lemma_split_one(kl);
    lemma_split_one(pl);
    let tail = seq![pl] + split_lines(rest);
    assert(split_lines(output_text(kem_ct, sender_pk, fs)) == seq![kl] + tail);
    lemma_parse_concat(seq![kl], tail, init);
    lemma_parse_concat(seq![pl], split_lines(rest), st1);
    assert(seq![kl][0] == kl);
    assert(seq![pl][0] == pl);
    assert(parse_lines(seq![kl].drop_first(), st1) == Ok::<ParseState, ParseFailure>(st1));
    assert(parse_lines(seq![pl].drop_first(), st2) == Ok::<ParseState, ParseFailure>(st2));
    assert(parse_lines(seq![kl], init) == Ok::<ParseState, ParseFailure>(st1));
    assert(parse_lines(seq![pl], st1) == Ok::<ParseState, ParseFailure>(st2));
    assert(st2.2 + fs =~= fs);
}


/// Any four or more of the fragments a message was sent as, none taken
/// twice, are enough to read it back.
pub proof fn lemma_any_four_fragments(
    fs: Seq<(u8, Seq<u8>)>,
    key: Seq<u8>,
    plain: Seq<char>,
    sub: Seq<(u8, Seq<u8>)>,
)
    requires
        carries(fs, key, plain),
        sub.len() >= 4,
        forall|i: int| 0 <= i < sub.len() ==> fs.contains(#[trigger] sub[i]),
        forall|i: int, j: int| 0 <= i < j < sub.len() ==> sub[i] != sub[j],
    ensures
        received(sub, key) == Some(plain),
{
    let ct = choose|ct: Seq<u8>|
        ct.len() >= 1 && #[trigger] is_dealing(share_data(fs), ct, 4) && decryption(ct, key) == Some(
            vstd::utf8::encode_utf8(plain),
        );
    let shares = share_data(fs);
    let sel = share_data(sub);
    assert(drawn_from(sel, shares)) by {
        assert forall|i: int| 0 <= i < sel.len() implies shares.contains(#[trigger] sel[i]) by {
            let p = choose|p: int| 0 <= p < fs.len() && fs[p] == sub[i];
            assert(shares[p] == sel[i]);
        }
    }
    assert(distinct_points(sel)) by {
        assert forall|a: int, b: int| 0 <= a < b < sel.len() implies (#[trigger] sel[a])[0] != (#[trigger] sel[b])[0] by {
            assert(fs.contains(sub[a]) && fs.contains(sub[b]));
            let p = choose|p: int| 0 <= p < fs.len() && fs[p] == sub[a];
            let q = choose|q: int| 0 <= q < fs.len() && fs[q] == sub[b];
            assert(sub[a] != sub[b]);
            assert(p != q);
            assert(shares[p][0] == p + 1 && shares[q][0] == q + 1);
        }
    }
    lemma_reconstruct_after_split(shares, ct, 4, sel);
    vstd::utf8::encode_utf8_valid_utf8(plain);
    vstd::utf8::encode_utf8_decode_utf8(plain);
    assert(sub.map_values(|f: (u8, Seq<u8>)| f.1) =~= sel);
}

/// The round trip through `send` and `receive` on any subset: when `sent`
/// carries `plain` under `key` (as every output of [`send`] does), an
/// output `got` whose fragments are four or more of the fragments sent,
/// none taken twice, in any order, reads back as `plain`, so [`receive`]
/// under that key gives `Ok` with `plain`.
pub proof fn lemma_receive_any_four_sent(sent: SendOutput, got: SendOutput, key: Seq<u8>, plain: Seq<char>)
    requires
        carries(fragment_views(sent.fragments@), key, plain),
        got.fragments@.len() >= 4,
        forall|i: int|
            0 <= i < got.fragments@.len() ==> fragment_views(sent.fragments@).contains(
                #[trigger] fragment_view(got.fragments@[i]),
            ),
        forall|i: int, j: int|
            0 <= i < j < got.fragments@.len() ==> fragment_view(#[trigger] got.fragments@[i]) != fragment_view(
                #[trigger] got.fragments@[j],
            ),
    ensures
        received(fragment_views(got.fragments@), key) == Some(plain),
{
    let fs = fragment_views(sent.fragments@);
    let sub = fragment_views(got.fragments@);
    assert forall|i: int| 0 <= i < sub.len() implies fs.contains(#[trigger] sub[i]) by {
        assert(sub[i] == fragment_view(got.fragments@[i]));
    }
    assert forall|i: int, j: int| 0 <= i < j < sub.len() implies sub[i] != sub[j] by {
        assert(sub[i] == fragment_view(got.fragments@[i]));
        assert(sub[j] == fragment_view(got.fragments@[j]));
    }
    lemma_any_four_fragments(fs, key, plain, sub);
}

/// The round trip through the text form: when `sent` reads back as
/// `plain` under `key` (as every output of [`send`] does) and its fragment
/// indices are below 10 (those of [`send`] are 1 to 7), the output `got`
/// that [`SendOutput::parse`] makes of [`SendOutput::display`]'s text
/// reads back as `plain` too, so [`receive`] gives `Ok` with `plain`.
pub proof fn lemma_receive_after_display_and_parse(sent: SendOutput, got: SendOutput, key: Seq<u8>, plain: Seq<char>)
    requires
        received(fragment_views(sent.fragments@), key) == Some(plain),
        forall|i: int| 0 <= i < sent.fragments@.len() ==> (#[trigger] sent.fragments@[i]).index < 10,
        parsed_output(output_text(sent.kem_ct@, sent.sender_pk@, fragment_views(sent.fragments@))) == Ok::<
            (Seq<u8>, Seq<u8>, Seq<(u8, Seq<u8>)>),
            ParseFailure,
        >(got.view_parts()),
    ensures
        got.view_parts() == sent.view_parts(),
        received(fragment_views(got.fragments@), key) == Some(plain),
{
    let fs = fragment_views(sent.fragments@);
    assert forall|i: int| 0 <= i < fs.len() implies (#[trigger] fs[i]).0 < 10 by {
        assert(fs[i] == fragment_view(sent.fragments@[i]));
    }
    lemma_parse_display(sent.kem_ct@, sent.sender_pk@, fs);
}

} // verus!
