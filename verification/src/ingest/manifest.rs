//! Manifest emission: best-effort parse of agent output -> [`Manifest`]s.
//!
//! Each artifact reference found in the output (GitHub commit URL, GitHub
//! blob URL, file path in backticks) yields a manifest
//! `<run_id>:<schema_id>`; references of one schema collapse to the last
//! one. Without any reference a single `agent-output` manifest points at the
//! run's thread.

use vstd::prelude::*;
use crate::error::IngestError;
use crate::model::Manifest;
use crate::source::SourceEvent;
use crate::text::{
    chars_eq, chars_of, contains_char, lex_lt, copy_range, find_char_from, find_chars, first_occurrence, has_char, is_alnum, is_alnum_char,
    is_hex, is_hex_char, lines, lines_of, starts_with, starts_with_chars, string_of,
    string_of_range, push_str,
};

verus! {

/// An artifact reference: `(schema_id, uri, commit_sha)`.
pub type RefSpec = (Seq<char>, Seq<char>, Option<Seq<char>>);

/// An artifact reference found in agent output.
pub struct ArtifactRef {
    pub schema_id: String,
    pub uri: String,
    pub commit_sha: Option<String>,
}

impl ArtifactRef {
    pub open spec fn spec_of(&self) -> RefSpec {
        (self.schema_id@, self.uri@, match self.commit_sha {
            Some(s) => Some(s@),
            None => None,
        })
    }
}

/// Length of the longest prefix of hex digits.
pub open spec fn hex_run(s: Seq<char>) -> nat
    decreases s.len(),
{
    if s.len() > 0 && is_hex(s[0]) {
        1 + hex_run(s.drop_first())
    } else {
        0
    }
}

/// Length of the longest prefix without `/`.
pub open spec fn segment_run(s: Seq<char>) -> nat
    decreases s.len(),
{
    if s.len() > 0 && s[0] != '/' {
        1 + segment_run(s.drop_first())
    } else {
        0
    }
}

pub open spec fn all_hex(s: Seq<char>) -> bool {
    forall|i: int| 0 <= i < s.len() ==> is_hex(#[trigger] s[i])
}

/// A GitHub commit or blob reference on a line, if the line has one.
#[verifier::opaque]
pub open spec fn github_ref(line: Seq<char>) -> Option<RefSpec> {
    match first_occurrence(line, "github.com/"@) {
        None => None,
        Some(p) => {
            let after = line.skip(p + "github.com/"@.len());
            let commit: Option<RefSpec> = match first_occurrence(after, "/commit/"@) {
                Some(c) => {
                    let area = after.skip(c + "/commit/"@.len());
                    let sha = area.take(hex_run(area) as int);
                    if sha.len() >= 7 {
                        Some(
                            (
                                "github-commit"@,
                                "https://github.com/"@ + after.take(c) + "/commit/"@ + sha,
                                Some(sha),
                            ),
                        )
                    } else {
                        None
                    }
                },
                None => None,
            };
            if commit is Some {
                commit
            } else {
                match first_occurrence(after, "/blob/"@) {
                    Some(b) => {
                        let ab = after.skip(b + "/blob/"@.len());
                        let sha = ab.take(segment_run(ab) as int);
                        if sha.len() >= 7 && all_hex(sha) {
                            Some(
                                (
                                    "github-blob"@,
                                    "https://github.com/"@ + after.take(b) + "/blob/"@ + sha + ab.skip(
                                        sha.len() as int,
                                    ),
                                    Some(sha),
                                ),
                            )
                        } else {
                            None
                        }
                    },
                    None => None,
                }
            }
        },
    }
}

/// `s` ends with an extension of 1 to 6 ASCII alphanumerics after its last `.`.
#[verifier::opaque]
pub open spec fn has_extension(s: Seq<char>) -> bool {
    exists|d: int|
        0 <= d < s.len() && s[d] == '.' && (forall|k: int| d < k < s.len() ==> s[k] != '.') && {
            let ext = s.skip(d + 1);
            &&& ext.len() > 0
            &&& ext.len() <= 6
            &&& forall|k: int| 0 <= k < ext.len() ==> is_alnum(#[trigger] ext[k])
        }
}

/// A backticked candidate worth recording as a file: at least 3 bytes (its
/// UTF-8 length, as `str::len` reports it), no space or newline, and a `/`,
/// a `./` or `.\` prefix, or an extension.
#[verifier::opaque]
pub open spec fn looks_like_path(s: Seq<char>) -> bool {
    &&& (vstd::utf8::encode_utf8(s).len() as usize) >= 3
    &&& !has_char(s, ' ')
    &&& !has_char(s, '\n')
    &&& (has_char(s, '/') || starts_with(s, "./"@) || starts_with(s, ".\\"@) || has_extension(s))
}

/// File paths in backticks on `line`, scanning from index `j`.
#[verifier::opaque]
pub open spec fn tick_paths(line: Seq<char>, j: int) -> Seq<Seq<char>>
    decreases line.len() - j,
{
    if j < 0 || j >= line.len() {
        seq![]
    } else if line[j] == '`' && j + 1 < line.len() {
        match first_occurrence(line.skip(j + 1), seq!['`']) {
            Some(e) => if e >= 0 && j + 2 + e <= line.len() {
                let cand = line.subrange(j + 1, j + 1 + e);
                let rest = tick_paths(line, j + 2 + e);
                if looks_like_path(cand) {
                    seq![cand] + rest
                } else {
                    rest
                }
            } else {
                seq![]
            },
            None => tick_paths(line, j + 1),
        }
    } else {
        tick_paths(line, j + 1)
    }
}

pub open spec fn file_ref(p: Seq<char>) -> RefSpec {
    ("file"@, p, None)
}

/// The references found on one line: a GitHub reference alone, or else the
/// backticked file paths.
#[verifier::opaque]
pub open spec fn line_refs(line: Seq<char>) -> Seq<RefSpec> {
    match github_ref(line) {
        Some(r) => seq![r],
        None => tick_paths(line, 0).map_values(|p: Seq<char>| file_ref(p)),
    }
}

pub open spec fn refs_of_lines(ls: Seq<Seq<char>>) -> Seq<RefSpec>
    decreases ls.len(),
{
    if ls.len() == 0 {
        seq![]
    } else {
        refs_of_lines(ls.drop_last()) + line_refs(ls.last())
    }
}

/// All artifact references in `content`, line by line, in order.
pub open spec fn content_refs(content: Seq<char>) -> Seq<RefSpec> {
    refs_of_lines(lines_of(content))
}

fn run_char(c: char, hex: bool) -> (r: bool)
    ensures
        r == (if hex { is_hex(c) } else { c != '/' }),
{
    if hex {
        is_hex_char(c)
    } else {
        c != '/'
    }
}

fn take_run(s: &[char], from: usize, hex: bool) -> (n: usize)
    requires
        from <= s@.len(),
    ensures
        from + n <= s@.len(),
        hex ==> n == hex_run(s@.skip(from as int)),
        !hex ==> n == segment_run(s@.skip(from as int)),
{
    let mut i: usize = from;
    while i < s.len() && run_char(s[i], hex)
        invariant
            from <= i <= s@.len(),
            hex ==> hex_run(s@.skip(from as int)) == (i - from) + hex_run(s@.skip(i as int)),
            !hex ==> segment_run(s@.skip(from as int)) == (i - from) + segment_run(s@.skip(i as int)),
        decreases s@.len() - i,
    {
        assert(s@.skip(i as int).drop_first() =~= s@.skip(i + 1));
        i = i + 1;
    }
    i - from
}

fn github_ref_of(line: &[char]) -> (r: Option<ArtifactRef>)
    ensures
        r matches Some(a) ==> github_ref(line@) == Some(a.spec_of()),
        r is None ==> github_ref(line@) is None,
{
    reveal(github_ref);
    let gh = chars_of("github.com/");
    let p = match find_chars(line, gh.as_slice()) {
        Some(p) => p,
        None => return None,
    };
    let ll = line.len();
    assert(p + gh@.len() <= ll);
    let start = p + gh.len();
    let mut after: Vec<char> = Vec::new();
    let mut k: usize = start;
    while k < line.len()
        invariant
            start <= k <= line@.len(),
            after@ == line@.subrange(start as int, k as int),
        decreases line@.len() - k,
    {
        after.push(line[k]);
        assert(after@ =~= line@.subrange(start as int, k + 1));
        k = k + 1;
    }
    assert(after@ =~= line@.skip(p + "github.com/"@.len()));
    let commit_pat = chars_of("/commit/");
    if let Some(c) = find_chars(after.as_slice(), commit_pat.as_slice()) {
        let sstart = c + commit_pat.len();
        let n = take_run(after.as_slice(), sstart, true);
        if n >= 7 {
            let sha = string_of_range(after.as_slice(), sstart, sstart + n);
            let mut uri = "https://github.com/".to_owned();
            push_str(&mut uri, string_of_range(after.as_slice(), 0, c).as_str());
            push_str(&mut uri, "/commit/");
            push_str(&mut uri, sha.as_str());
            let schema = "github-commit".to_owned();
            let ghost area = after@.skip(c + "/commit/"@.len());
            assert(sha@ =~= area.take(hex_run(area) as int));
            assert(after@.subrange(0, c as int) =~= after@.take(c as int));
            return Some(ArtifactRef { schema_id: schema, uri, commit_sha: Some(sha) });
        }
    }
    let blob_pat = chars_of("/blob/");
    if let Some(b) = find_chars(after.as_slice(), blob_pat.as_slice()) {
        let sstart = b + blob_pat.len();
        let n = take_run(after.as_slice(), sstart, false);
        let ghost ab = after@.skip(b + "/blob/"@.len());
        let sha_chars = string_of_range(after.as_slice(), sstart, sstart + n);
        assert(sha_chars@ =~= ab.take(segment_run(ab) as int));
        if n >= 7 {
            let mut all = true;
            let mut q: usize = sstart;
            let end = sstart + n;
            while q < end
                invariant
                    end == sstart + n,
                    sstart <= q <= sstart + n,
                    sstart + n <= after@.len(),
                    all == (forall|t: int| sstart <= t < q ==> is_hex(#[trigger] after@[t])),
                decreases sstart + n - q,
            {
                all = all && is_hex_char(after[q]);
                q = q + 1;
            }
            assert(all == all_hex(sha_chars@)) by {
                if all {
                    assert forall|i: int| 0 <= i < sha_chars@.len() implies is_hex(#[trigger] sha_chars@[i]) by {
                        assert(sha_chars@[i] == after@[sstart + i]);
                    }
                } else {
                    let t = choose|t: int| sstart <= t < sstart + n && !is_hex(#[trigger] after@[t]);
                    assert(sha_chars@[t - sstart] == after@[t]);
                }
            }
            if all {
                let mut uri = "https://github.com/".to_owned();
                push_str(&mut uri, string_of_range(after.as_slice(), 0, b).as_str());
                push_str(&mut uri, "/blob/");
                push_str(&mut uri, sha_chars.as_str());
                push_str(&mut uri, string_of_range(after.as_slice(), sstart + n, after.len()).as_str());
                assert(after@.subrange(0, b as int) =~= after@.take(b as int));
                assert(after@.subrange(sstart + n, after@.len() as int) =~= ab.skip(n as int));
                let schema = "github-blob".to_owned();
                return Some(ArtifactRef { schema_id: schema, uri, commit_sha: Some(sha_chars) });
            }
        }
    }
    None
}

fn has_extension_of(s: &[char]) -> (r: bool)
    ensures
        r == has_extension(s@),
{
    reveal(has_extension);
    let n = s.len();
    let mut d: usize = n;
    while d > 0 && s[d - 1] != '.'
        invariant
            d <= n,
            n == s@.len(),
            forall|k: int| d <= k < n ==> s@[k] != '.',
        decreases d,
    {
        d = d - 1;
    }
    if d == 0 {
        assert(!has_extension(s@)) by {
            if has_extension(s@) {
                let x = choose|x: int|
                    0 <= x < s@.len() && s@[x] == '.' && (forall|k: int| x < k < s@.len() ==> s@[k] != '.') && {
                        let ext = s@.skip(x + 1);
                        &&& ext.len() > 0
                        &&& ext.len() <= 6
                        &&& forall|k: int| 0 <= k < ext.len() ==> is_alnum(#[trigger] ext[k])
                    };
                assert(s@[x] != '.');
            }
        }
        return false;
    }
    let dot = d - 1;
    let ext_len = n - d;
    let mut ok = ext_len > 0 && ext_len <= 6;
    let mut k: usize = d;
    while k < n
        invariant
            d <= k <= n,
            n == s@.len(),
            ok == (n - d > 0 && n - d <= 6 && forall|t: int| d <= t < k ==> is_alnum(#[trigger] s@[t])),
        decreases n - k,
    {
        ok = ok && is_alnum_char(s[k]);
        k = k + 1;
    }
    proof {
        let ext = s@.skip(dot + 1);
        assert forall|t: int| 0 <= t < ext.len() implies ext[t] == s@[d + t] by {}
        if ok {
            assert forall|t: int| 0 <= t < ext.len() implies is_alnum(#[trigger] ext[t]) by {
                assert(ext[t] == s@[d + t]);
            }
        } else if has_extension(s@) {
            let x = choose|x: int|
                0 <= x < s@.len() && s@[x] == '.' && (forall|k: int| x < k < s@.len() ==> s@[k] != '.') && {
                    let ext = s@.skip(x + 1);
                    &&& ext.len() > 0
                    &&& ext.len() <= 6
                    &&& forall|k: int| 0 <= k < ext.len() ==> is_alnum(#[trigger] ext[k])
                };
            if x < dot {
                assert(s@[dot as int] == '.');
            } else if x > dot {
                assert(s@[x] != '.');
            }
            assert(x == dot);
            assert forall|t: int| d <= t < n implies is_alnum(#[trigger] s@[t]) by {
                assert(s@.skip(x + 1)[t - d] == s@[t]);
            }
        }
    }
    ok
}

fn looks_like_path_of(s: &[char]) -> (r: bool)
    ensures
        r == looks_like_path(s@),
{
    reveal(looks_like_path);
    let st = string_of(s);
    if st.as_str().len() < 3 || contains_char(s, ' ') || contains_char(s, '\n') {
        return false;
    }
    let dot_slash = chars_of("./");
    let dot_back = chars_of(".\\");
    contains_char(s, '/') || starts_with_chars(s, dot_slash.as_slice()) || starts_with_chars(
        s,
        dot_back.as_slice(),
    ) || has_extension_of(s)
}

proof fn lemma_tick_step(line: Seq<char>, j: int)
    requires
        0 <= j < line.len(),
        !(line[j] == '`' && j + 1 < line.len()) || first_occurrence(line.skip(j + 1), seq!['`']) is None,
    ensures
        tick_paths(line, j) == tick_paths(line, j + 1),
{
    reveal(tick_paths);
}

proof fn lemma_tick_found(line: Seq<char>, j: int, e: int)
    requires
        0 <= j,
        line[j] == '`',
        j + 1 < line.len(),
        first_occurrence(line.skip(j + 1), seq!['`']) == Some(e),
        e >= 0,
        j + 2 + e <= line.len(),
    ensures
        tick_paths(line, j) == (if looks_like_path(line.subrange(j + 1, j + 1 + e)) {
            seq![line.subrange(j + 1, j + 1 + e)] + tick_paths(line, j + 2 + e)
        } else {
            tick_paths(line, j + 2 + e)
        }),
{
    reveal(tick_paths);
}

proof fn lemma_tick_end(line: Seq<char>, j: int)
    requires
        j >= line.len(),
    ensures
        tick_paths(line, j) == Seq::<Seq<char>>::empty(),
{
    reveal(tick_paths);
}

fn tick_paths_of(line: &[char]) -> (out: Vec<Vec<char>>)
    ensures
        out@.len() == tick_paths(line@, 0).len(),
        forall|i: int| 0 <= i < out@.len() ==> #[trigger] out@[i]@ == tick_paths(line@, 0)[i],
{
    let n = line.len();
    let mut out: Vec<Vec<char>> = Vec::new();
    let ghost mut found: Seq<Seq<char>> = seq![];
    let mut j: usize = 0;
    while j < n
        invariant
            n == line@.len(),
            j <= n + 1,
            out@.len() == found.len(),
            forall|i: int| 0 <= i < out@.len() ==> #[trigger] out@[i]@ == found[i],
            found + tick_paths(line@, j as int) == tick_paths(line@, 0),
        decreases n + 1 - j,
    {
        if line[j] == '`' && j + 1 < n {
            match find_char_from(line, '`', j + 1) {
                Some(e) => {
                    let cand = copy_range(line, j + 1, j + 1 + e);
                    let keep = looks_like_path_of(cand.as_slice());
                    proof {
                        lemma_tick_found(line@, j as int, e as int);
                        if keep {
                            assert(found.push(cand@) + tick_paths(line@, j + 2 + e) =~= found + (seq![cand@] + tick_paths(line@, j + 2 + e)));
                            found = found.push(cand@);
                        }
                    }
                    if keep {
                        out.push(cand);
                    }
                    j = j + 2 + e;
                },
                None => {
                    proof {
                        lemma_tick_step(line@, j as int);
                    }
                    j = j + 1;
                },
            }
        } else {
            proof {
                lemma_tick_step(line@, j as int);
            }
            j = j + 1;
        }
    }
    proof {
        lemma_tick_end(line@, j as int);
    }
    assert(found =~= tick_paths(line@, 0));
    out
}

fn line_refs_of(line: &[char]) -> (out: Vec<ArtifactRef>)
    ensures
        out@.map_values(|a: ArtifactRef| a.spec_of()) == line_refs(line@),
{
    reveal(line_refs);
    if let Some(r) = github_ref_of(line) {
        let mut out: Vec<ArtifactRef> = Vec::new();
        out.push(r);
        assert(out@.map_values(|a: ArtifactRef| a.spec_of()) =~= line_refs(line@));
        return out;
    }
    let paths = tick_paths_of(line);
    let ghost ps = tick_paths(line@, 0);
    let mut out: Vec<ArtifactRef> = Vec::new();
    let mut i: usize = 0;
    while i < paths.len()
        invariant
            i <= paths@.len(),
            paths@.len() == ps.len(),
            forall|k: int| 0 <= k < paths@.len() ==> #[trigger] paths@[k]@ == ps[k],
            out@.map_values(|a: ArtifactRef| a.spec_of()) == ps.take(i as int).map_values(
                |p: Seq<char>| file_ref(p),
            ),
        decreases paths@.len() - i,
    {
        let uri = string_of(paths[i].as_slice());
        let a = ArtifactRef { schema_id: "file".to_owned(), uri, commit_sha: None };
        assert(a.spec_of() == file_ref(ps[i as int]));
        let ghost old_out = out@;
        out.push(a);
        assert(out@ == old_out.push(a));
        assert(out@.map_values(|a: ArtifactRef| a.spec_of()) =~= old_out.map_values(|a: ArtifactRef| a.spec_of()).push(a.spec_of()));
        assert(ps.take(i + 1) =~= ps.take(i as int).push(ps[i as int]));
        assert(out@.map_values(|a: ArtifactRef| a.spec_of()) =~= ps.take(i + 1).map_values(
            |p: Seq<char>| file_ref(p),
        ));
        i = i + 1;
    }
    assert(ps.take(ps.len() as int) =~= ps);
    out
}

/// All artifact references in `content` (see [`content_refs`]).
pub fn extract_refs(content: &str) -> (out: Vec<ArtifactRef>)
    ensures
        out@.map_values(|a: ArtifactRef| a.spec_of()) == content_refs(content@),
{
    let cv = chars_of(content);
    let ls = lines(cv.as_slice());
    let ghost lv = lines_of(content@);
    let mut out: Vec<ArtifactRef> = Vec::new();
    let mut i: usize = 0;
    while i < ls.len()
        invariant
            i <= ls@.len(),
            ls@.len() == lv.len(),
            forall|k: int| 0 <= k < ls@.len() ==> #[trigger] ls@[k]@ == lv[k],
            out@.map_values(|a: ArtifactRef| a.spec_of()) == refs_of_lines(lv.take(i as int)),
        decreases ls@.len() - i,
    {
        let mut lr = line_refs_of(ls[i].as_slice());
        let ghost before = out@.map_values(|a: ArtifactRef| a.spec_of());
        let ghost add = lr@.map_values(|a: ArtifactRef| a.spec_of());
        out.append(&mut lr);
        assert(lv.take(i + 1).drop_last() =~= lv.take(i as int));
        assert(out@.map_values(|a: ArtifactRef| a.spec_of()) =~= before + add);
        i = i + 1;
    }
    assert(lv.take(lv.len() as int) =~= lv);
    out
}

/// Lowercase hex digit of `n < 16`.
pub open spec fn hex_digit(n: nat) -> char {
    seq!['0', '1', '2', '3', '4', '5', '6', '7', '8', '9', 'a', 'b', 'c', 'd', 'e', 'f'][n as int]
}

/// Two lowercase hex digits per byte (`format!("{b:02x}")` for each byte).
pub open spec fn hex_lower(bytes: Seq<u8>) -> Seq<char>
    decreases bytes.len(),
{
    if bytes.len() == 0 {
        seq![]
    } else {
        hex_lower(bytes.drop_last()) + seq![
            hex_digit((bytes.last() / 16) as nat),
            hex_digit((bytes.last() % 16) as nat),
        ]
    }
}

/// A lowercase hex digit: `0`-`9` or `a`-`f`.
pub open spec fn is_lower_hex(c: char) -> bool {
    ('0' <= c && c <= '9') || ('a' <= c && c <= 'f')
}

proof fn lemma_hex_digit(n: nat)
    requires
        n < 16,
    ensures
        is_lower_hex(hex_digit(n)),
{
    let d = seq!['0', '1', '2', '3', '4', '5', '6', '7', '8', '9', 'a', 'b', 'c', 'd', 'e', 'f'];
    assert(d[n as int] == hex_digit(n));
    assert(forall|k: int| 0 <= k < 16 ==> is_lower_hex(#[trigger] d[k])) by {
        assert(d[0] == '0' && d[1] == '1' && d[2] == '2' && d[3] == '3' && d[4] == '4' && d[5] == '5');
        assert(d[6] == '6' && d[7] == '7' && d[8] == '8' && d[9] == '9' && d[10] == 'a' && d[11] == 'b');
        assert(d[12] == 'c' && d[13] == 'd' && d[14] == 'e' && d[15] == 'f');
    }
}

/// Hex text has two digits per byte, each a lowercase hex digit.
pub proof fn lemma_hex_lower(bytes: Seq<u8>)
    ensures
        hex_lower(bytes).len() == 2 * bytes.len(),
        forall|i: int| 0 <= i < hex_lower(bytes).len() ==> is_lower_hex(#[trigger] hex_lower(bytes)[i]),
    decreases bytes.len(),
{
    if bytes.len() > 0 {
        let rest = bytes.drop_last();
        lemma_hex_lower(rest);
        let hi = (bytes.last() / 16) as nat;
        let lo = (bytes.last() % 16) as nat;
        lemma_hex_digit(hi);
        lemma_hex_digit(lo);
        let h = hex_lower(bytes);
        let p = hex_lower(rest);
        assert forall|i: int| 0 <= i < h.len() implies is_lower_hex(#[trigger] h[i]) by {
            if i < p.len() {
                assert(h[i] == p[i]);
            } else if i == p.len() {
                assert(h[i] == hex_digit(hi));
            } else {
                assert(h[i] == hex_digit(lo));
            }
        }
    }
}

/// The content hash of a text: lowercase hex of the SHA-256 of its UTF-8 bytes.
pub open spec fn content_hash_spec(content: Seq<char>) -> Seq<char> {
    hex_lower(crate::trusted::sha256(vstd::utf8::encode_utf8(content)))
}

fn hex_digit_of(n: u8) -> (c: char)
    requires
        n < 16,
    ensures
        c == hex_digit(n as nat),
{
    let digits: [char; 16] = ['0', '1', '2', '3', '4', '5', '6', '7', '8', '9', 'a', 'b', 'c', 'd', 'e', 'f'];
    assert(digits@ == seq!['0', '1', '2', '3', '4', '5', '6', '7', '8', '9', 'a', 'b', 'c', 'd', 'e', 'f']);
    digits[n as usize]
}

/// SHA-256 of `content`'s UTF-8 bytes, as 64 lowercase hex digits.
pub fn content_hash(content: &str) -> (h: String)
    ensures
        h@ == content_hash_spec(content@),
        h@.len() == 64,
        forall|i: int| 0 <= i < h@.len() ==> is_lower_hex(#[trigger] h@[i]),
{
    let d = crate::trusted::sha256_digest(content.as_bytes());
    let mut out: Vec<char> = Vec::new();
    let mut i: usize = 0;
    while i < d.len()
        invariant
            i <= d@.len(),
            out@ == hex_lower(d@.take(i as int)),
            out@.len() == 2 * i,
        decreases d@.len() - i,
    {
        let b = d[i];
        out.push(hex_digit_of(b / 16));
        out.push(hex_digit_of(b % 16));
        assert(d@.take(i + 1).drop_last() =~= d@.take(i as int));
        assert(out@ =~= hex_lower(d@.take(i + 1)));
        i = i + 1;
    }
    assert(d@.take(d@.len() as int) =~= d@);
    proof {
        lemma_hex_lower(d@);
    }
    string_of(out.as_slice())
}

/// The last reference with schema `schema`.
pub open spec fn last_ref_with(refs: Seq<RefSpec>, schema: Seq<char>) -> Option<RefSpec>
    decreases refs.len(),
{
    if refs.len() == 0 {
        None
    } else if refs.last().0 == schema {
        Some(refs.last())
    } else {
        last_ref_with(refs.drop_last(), schema)
    }
}

/// `es` holds, for each schema among `refs`, exactly the last reference of
/// that schema, ordered by schema id (what collecting into a map keyed by
/// schema id, last write winning, and reading it back in key order gives).
pub open spec fn dedup_by_schema(es: Seq<RefSpec>, refs: Seq<RefSpec>) -> bool {
    &&& forall|a: int, b: int| 0 <= a < b < es.len() ==> crate::text::seq_lt(es[a].0, es[b].0)
    &&& forall|k: int| 0 <= k < es.len() ==> last_ref_with(refs, #[trigger] es[k].0) == Some(es[k])
    &&& forall|t: int| 0 <= t < refs.len() ==> exists|k: int| 0 <= k < es.len() && #[trigger] es[k].0 == #[trigger] refs[t].0
}

proof fn lemma_last_ref_push(refs: Seq<RefSpec>, x: RefSpec, schema: Seq<char>)
    ensures
        last_ref_with(refs.push(x), schema) == (if x.0 == schema { Some(x) } else { last_ref_with(refs, schema) }),
{
    assert(refs.push(x).drop_last() =~= refs);
}

impl ArtifactRef {
    fn duplicate(&self) -> (r: ArtifactRef)
        ensures
            r.spec_of() == self.spec_of(),
    {
        ArtifactRef {
            schema_id: self.schema_id.clone(),
            uri: self.uri.clone(),
            commit_sha: crate::model::copy_opt_string(&self.commit_sha),
        }
    }
}

/// One reference per schema, the last of each, ordered by schema id.
fn dedup_refs(refs: &Vec<ArtifactRef>) -> (es: Vec<ArtifactRef>)
    ensures
        dedup_by_schema(es@.map_values(|a: ArtifactRef| a.spec_of()), refs@.map_values(|a: ArtifactRef| a.spec_of())),
{
    let ghost rv = refs@.map_values(|a: ArtifactRef| a.spec_of());
    let mut es: Vec<ArtifactRef> = Vec::new();
    let mut i: usize = 0;
    while i < refs.len()
        invariant
            i <= refs@.len(),
            rv == refs@.map_values(|a: ArtifactRef| a.spec_of()),
            dedup_by_schema(es@.map_values(|a: ArtifactRef| a.spec_of()), rv.take(i as int)),
        decreases refs@.len() - i,
    {
        let ghost ev = es@.map_values(|a: ArtifactRef| a.spec_of());
        let x = refs[i].duplicate();
        let key = chars_of(x.schema_id.as_str());
        assert(rv.take(i + 1) =~= rv.take(i as int).push(x.spec_of()));
        let mut j: usize = 0;
        while j < es.len() && lex_lt(chars_of(es[j].schema_id.as_str()).as_slice(), key.as_slice())
            invariant
                j <= es@.len(),
                ev == es@.map_values(|a: ArtifactRef| a.spec_of()),
                key@ == x.schema_id@,
                forall|a: int| 0 <= a < j ==> crate::text::seq_lt(#[trigger] ev[a].0, key@),
            decreases es@.len() - j,
        {
            j = j + 1;
        }
        if j < es.len() && chars_eq(chars_of(es[j].schema_id.as_str()).as_slice(), key.as_slice()) {
            let ghost old_es = es@;
            es.set(j, x);
            proof {
                let nv = es@.map_values(|a: ArtifactRef| a.spec_of());
                assert(nv =~= ev.update(j as int, x.spec_of()));
                assert(ev[j as int].0 == key@);
                assert forall|a: int, b: int| 0 <= a < b < nv.len() implies crate::text::seq_lt(nv[a].0, nv[b].0) by {
                    assert(nv[a].0 == ev[a].0);
                    assert(nv[b].0 == ev[b].0);
                }
                assert forall|k: int| 0 <= k < nv.len() implies last_ref_with(rv.take(i + 1), #[trigger] nv[k].0) == Some(nv[k]) by {
                    lemma_last_ref_push(rv.take(i as int), x.spec_of(), nv[k].0);
                    if k != j {
                        assert(nv[k] == ev[k]);
                        if ev[k].0 == key@ {
                            crate::text::lemma_lt_irreflexive(key@);
                            if k < j {
                                assert(crate::text::seq_lt(ev[k].0, ev[j as int].0));
                            } else {
                                assert(crate::text::seq_lt(ev[j as int].0, ev[k].0));
                            }
                        }
                    }
                }
                assert forall|t: int| 0 <= t < rv.take(i + 1).len() implies exists|k: int| 0 <= k < nv.len() && #[trigger] nv[k].0 == #[trigger] rv.take(i + 1)[t].0 by {
                    if t == i {
                        assert(nv[j as int].0 == rv.take(i + 1)[t].0);
                    } else {
                        assert(rv.take(i + 1)[t] == rv.take(i as int)[t]);
                        let k = choose|k: int| 0 <= k < ev.len() && #[trigger] ev[k].0 == #[trigger] rv.take(i as int)[t].0;
                        assert(nv[k].0 == ev[k].0);
                    }
                }
            }
        } else {
            proof {
                if j < ev.len() {
                    crate::text::lemma_lt_total(ev[j as int].0, key@);
                }
            }
            es.insert(j, x);
            proof {
                let nv = es@.map_values(|a: ArtifactRef| a.spec_of());
                assert(nv =~= ev.insert(j as int, x.spec_of()));
                assert forall|a: int, b: int| 0 <= a < b < nv.len() implies crate::text::seq_lt(nv[a].0, nv[b].0) by {
                    if a < j && b == j {
                    } else if a < j && b > j {
                        assert(nv[b] == ev[b - 1]);
                        crate::text::lemma_lt_transitive(ev[a].0, key@, ev[j as int].0);
                        if b - 1 > j {
                            crate::text::lemma_lt_transitive(ev[a].0, ev[j as int].0, ev[b - 1].0);
                        }
                    } else if a == j {
                        assert(nv[b] == ev[b - 1]);
                        if b - 1 > j {
                            crate::text::lemma_lt_transitive(key@, ev[j as int].0, ev[b - 1].0);
                        }
                    } else if a > j {
                        assert(nv[a] == ev[a - 1]);
                        assert(nv[b] == ev[b - 1]);
                    }
                }
                assert forall|k: int| 0 <= k < nv.len() implies last_ref_with(rv.take(i + 1), #[trigger] nv[k].0) == Some(nv[k]) by {
                    lemma_last_ref_push(rv.take(i as int), x.spec_of(), nv[k].0);
                    if k < j {
                        assert(nv[k] == ev[k]);
                        crate::text::lemma_lt_irreflexive(key@);
                    } else if k > j {
                        assert(nv[k] == ev[k - 1]);
                        crate::text::lemma_lt_irreflexive(key@);
                        if k - 1 > j {
                            crate::text::lemma_lt_transitive(key@, ev[j as int].0, ev[k - 1].0);
                        }
                    }
                }
                assert forall|t: int| 0 <= t < rv.take(i + 1).len() implies exists|k: int| 0 <= k < nv.len() && #[trigger] nv[k].0 == #[trigger] rv.take(i + 1)[t].0 by {
                    if t == i {
                        assert(nv[j as int].0 == rv.take(i + 1)[t].0);
                    } else {
                        assert(rv.take(i + 1)[t] == rv.take(i as int)[t]);
                        let k = choose|k: int| 0 <= k < ev.len() && #[trigger] ev[k].0 == #[trigger] rv.take(i as int)[t].0;
                        if k < j {
                            assert(nv[k].0 == ev[k].0);
                        } else {
                            assert(nv[k + 1].0 == ev[k].0);
                        }
                    }
                }
            }
        }
        i = i + 1;
    }
    assert(rv.take(refs@.len() as int) =~= rv);
    es
}

pub open spec fn opt_view(o: Option<String>) -> Option<Seq<char>> {
    match o {
        Some(s) => Some(s@),
        None => None,
    }
}

/// The reference a manifest records.
pub open spec fn manifest_ref(m: Manifest) -> RefSpec {
    (m.schema_id@, m.uri@, opt_view(m.commit_sha))
}

/// The fields every manifest from one agent output shares.
pub open spec fn manifest_common(m: Manifest, run_id: Seq<char>, content: Seq<char>, now: i64) -> bool {
    &&& m.manifest_id@ == crate::model::manifest_id_spec(run_id, m.schema_id@)
    &&& m.run_id@ == run_id
    &&& m.schema_version == 1
    &&& m.content_hash@ == content_hash_spec(content)
    &&& m.bytes == Some((vstd::utf8::encode_utf8(content).len() as usize) as u64)
    &&& m.materialized_at == now
}

/// Where the fallback manifest points: the given thread, else `buzz://run/<run_id>`.
pub open spec fn fallback_uri(run_id: Seq<char>, thread: Option<Seq<char>>) -> Seq<char> {
    match thread {
        Some(t) => t,
        None => "buzz://run/"@ + run_id,
    }
}

fn manifest_of(run_id: &str, r: &ArtifactRef, hash: &String, bytes: u64, now: i64) -> (m: Manifest)
    ensures
        m.manifest_id@ == crate::model::manifest_id_spec(run_id@, r.schema_id@),
        manifest_ref(m) == r.spec_of(),
        m.run_id@ == run_id@,
        m.schema_version == 1,
        m.content_hash == *hash,
        m.bytes == Some(bytes),
        m.materialized_at == now,
{
    Manifest {
        manifest_id: Manifest::id_for(run_id, r.schema_id.as_str()),
        run_id: run_id.to_owned(),
        schema_id: r.schema_id.clone(),
        schema_version: 1,
        content_hash: hash.clone(),
        commit_sha: crate::model::copy_opt_string(&r.commit_sha),
        uri: r.uri.clone(),
        bytes: Some(bytes),
        materialized_at: now,
    }
}

/// Build the manifests for an agent's output event.
///
/// One manifest per schema among the artifact references of the content
/// (the last reference of each schema, ordered by schema id); without any
/// reference, a single `agent-output` manifest pointing at the run's thread
/// (or `buzz://run/<run_id>`). Every manifest has version 1, the content's
/// SHA-256 hex, the content's byte length, and `materialized_at == now`.
pub fn manifest_from_agent_output(
    run_id: &str,
    event: &SourceEvent,
    now: i64,
    fallback_thread_uri: Option<&str>,
) -> (r: Result<Vec<Manifest>, IngestError>)
    ensures
        r matches Ok(ms) && {
            let refs = content_refs(event.content@);
            &&& forall|k: int| 0 <= k < ms@.len() ==> manifest_common(#[trigger] ms@[k], run_id@, event.content@, now)
            &&& if refs.len() == 0 {
                &&& ms@.len() == 1
                &&& manifest_ref(ms@[0]) == ("agent-output"@, fallback_uri(run_id@, match fallback_thread_uri {
                    Some(t) => Some(t@),
                    None => None,
                }), None::<Seq<char>>)
            } else {
                dedup_by_schema(ms@.map_values(|m: Manifest| manifest_ref(m)), refs)
            }
        },
{
    let hash = content_hash(event.content.as_str());
    let bytes: u64 = event.content.as_str().len() as u64;
    let refs = extract_refs(event.content.as_str());
    if refs.len() == 0 {
        let uri = match fallback_thread_uri {
            Some(t) => t.to_owned(),
            None => {
                let mut u = "buzz://run/".to_owned();
                push_str(&mut u, run_id);
                u
            },
        };
        let fallback = ArtifactRef { schema_id: "agent-output".to_owned(), uri, commit_sha: None };
        let m = manifest_of(run_id, &fallback, &hash, bytes, now);
        let mut ms: Vec<Manifest> = Vec::new();
        ms.push(m);
        return Ok(ms);
    }
    let es = dedup_refs(&refs);
    let mut ms: Vec<Manifest> = Vec::new();
    let mut i: usize = 0;
    while i < es.len()
        invariant
            i <= es@.len(),
            ms@.len() == i,
            hash@ == content_hash_spec(event.content@),
            bytes == (vstd::utf8::encode_utf8(event.content@).len() as usize) as u64,
            forall|k: int| 0 <= k < i ==> manifest_ref(#[trigger] ms@[k]) == es@[k].spec_of(),
            forall|k: int| 0 <= k < i ==> manifest_common(#[trigger] ms@[k], run_id@, event.content@, now),
        decreases es@.len() - i,
    {
        let m = manifest_of(run_id, &es[i], &hash, bytes, now);
        ms.push(m);
        i = i + 1;
    }
    assert(ms@.map_values(|m: Manifest| manifest_ref(m)) =~= es@.map_values(|a: ArtifactRef| a.spec_of()));
    Ok(ms)
}

} // verus!
