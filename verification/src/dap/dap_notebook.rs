//! Mapping of notebook cells to temporary source files.
//!
//! The handler of debug requests and the console have to agree on how the code of
//! a cell maps to a path, and so does the client, which hashes the code itself.
use vstd::prelude::*;

use crate::text;
use crate::urls;

verus! {

pub const HASH_SEED: u32 = 0;

pub const TMP_FILE_SUFFIX: &'static str = ".r";

const M: u32 = 0x5bd1e995;

/// The path of a directory in another one.
pub open spec fn in_directory(dir: Seq<char>, name: Seq<char>) -> Seq<char> {
    if dir.len() == 0 || dir.last() == '/' {
        dir + name
    } else {
        dir.push('/') + name
    }
}

/// The prefix of the paths of temporary source files: a directory of this process
/// in the directory for temporary files, with a slash at its end.
pub open spec fn prefix_in(temp_dir: Seq<char>, pid: u32) -> Seq<char> {
    in_directory(temp_dir, "ark-debug-"@ + text::decimal(pid as nat)) + "/"@
}

/// The prefix of the paths of temporary source files.
pub fn tmp_file_prefix(temp_dir: &str, pid: u32) -> (r: String)
    ensures
        r@ == prefix_in(temp_dir@, pid),
{
    let v: Vec<char> = text::chars_of(temp_dir);
    let mut r: String = temp_dir.to_owned();
    if v.len() > 0 && v[v.len() - 1] != '/' {
        r.push('/');
    }
    let ghost dir = r@;
    r.append("ark-debug-");
    r.append(text::u64_text(pid as u64).as_str());
    assert(r@ =~= dir + ("ark-debug-"@ + text::decimal(pid as nat)));
    r.append("/");
    r
}

/// The prefix of the paths of temporary source files, once it is known. It is computed
/// at the first call and kept, as R may change the directory for temporary files.
pub struct TmpFilePrefix {
    prefix: Option<String>,
}

impl View for TmpFilePrefix {
    type V = Option<Seq<char>>;

    closed spec fn view(&self) -> Option<Seq<char>> {
        text::opt_text(self.prefix)
    }
}

/// The prefix that a call gives, where `kept` is the one known before it.
pub open spec fn prefix_given(kept: Option<Seq<char>>, temp_dir: Seq<char>, pid: u32) -> Seq<char> {
    match kept {
        Some(prefix) => prefix,
        None => prefix_in(temp_dir, pid),
    }
}

impl TmpFilePrefix {
    /// No prefix is known yet.
    pub fn new() -> (r: Self)
        ensures
            r@ is None,
    {
        Self { prefix: None }
    }

    /// The prefix of the paths of temporary source files. The directory for temporary
    /// files and the process are looked at in the first call only.
    pub fn tmp_file_prefix(&mut self, temp_dir: &str, pid: u32) -> (r: String)
        ensures
            r@ == prefix_given(old(self)@, temp_dir@, pid),
            final(self)@ == Some(r@),
    {
        if let Some(prefix) = &self.prefix {
            return prefix.clone();
        }
        let prefix: String = tmp_file_prefix(temp_dir, pid);
        self.prefix = Some(prefix.clone());
        prefix
    }
}

/// The prefix that the last of some calls gives, each with the directory for temporary
/// files and the process at its time. Before the first call no prefix is known.
pub open spec fn prefix_after(calls: Seq<(Seq<char>, u32)>) -> Option<Seq<char>>
    decreases calls.len(),
{
    if calls.len() == 0 {
        None
    } else {
        Some(prefix_given(prefix_after(calls.drop_last()), calls.last().0, calls.last().1))
    }
}

/// Every call gives the prefix of the first one, also where the directory for temporary
/// files has changed since.
pub proof fn law_first_prefix_is_kept(calls: Seq<(Seq<char>, u32)>)
    requires
        calls.len() > 0,
    ensures
        prefix_after(calls) == Some(prefix_in(calls[0].0, calls[0].1)),
    decreases calls.len(),
{
    if calls.len() > 1 {
        law_first_prefix_is_kept(calls.drop_last());
    } else {
        assert(prefix_after(calls.drop_last()) is None);
    }
}

/// The seed of the hash of a cell's code.
pub fn hash_seed() -> (r: u32)
    ensures
        r == 0,
{
    HASH_SEED
}

/// The suffix of the paths of temporary source files.
pub fn tmp_file_suffix() -> (r: &'static str)
    ensures
        r@ == ".r"@,
{
    TMP_FILE_SUFFIX
}

/// The path of a cell's temporary source file: the prefix, the hash of the code
/// and the suffix.
pub open spec fn source_path(prefix: Seq<char>, code: Seq<char>) -> Seq<char> {
    prefix + text::decimal(
        spec_murmur2(vstd::utf8::encode_utf8(code), HASH_SEED) as nat,
    ) + ".r"@
}

/// The path of a cell's temporary source file.
pub fn notebook_source_path(prefix: &str, code: &str) -> (r: String)
    ensures
        r@ == source_path(prefix@, code@),
{
    let hash: u32 = murmur2(code.as_bytes(), HASH_SEED);
    text::join3(prefix, text::u64_text(hash as u64).as_str(), TMP_FILE_SUFFIX)
}

/// A place in a document. Lines and characters count from zero.
#[derive(Clone, Copy, Debug, PartialEq, Eq, Structural)]
pub struct Position {
    pub line: u32,
    pub character: u32,
}

/// Where some code stands.
#[derive(Debug, PartialEq, Eq)]
pub struct CodeLocation {
    pub uri: String,
    pub start: Position,
    pub end: Position,
}

/// The number of line feeds.
pub open spec fn line_feeds(s: Seq<char>) -> nat
    decreases s.len(),
{
    if s.len() == 0 {
        0
    } else {
        line_feeds(s.drop_last()) + if s.last() == '\n' {
            1nat
        } else {
            0nat
        }
    }
}

/// What follows the last line feed.
pub open spec fn last_line(s: Seq<char>) -> Seq<char>
    decreases s.len(),
{
    if s.len() == 0 || s.last() == '\n' {
        Seq::empty()
    } else {
        last_line(s.drop_last()).push(s.last())
    }
}

/// The location is that of the whole of a cell's code.
pub open spec fn covers_cell(r: CodeLocation, code: Seq<char>) -> bool {
    &&& r.start == (Position { line: 0, character: 0 })
    &&& r.end.line == line_feeds(code) as u32
    &&& r.end.character == vstd::utf8::encode_utf8(last_line(code)).len() as u32
}

/// The location of the whole of a cell's code in the document `uri`. It ends in
/// the last line, after the bytes of that line.
pub fn whole_cell(uri: String, code: &str) -> (r: CodeLocation)
    ensures
        r.uri == uri,
        covers_cell(r, code@),
{
    let v: Vec<char> = text::chars_of(code);
    let n: usize = v.len();
    let mut i: usize = 0;
    let mut lines: usize = 0;
    let mut from: usize = 0;
    assert(last_line(code@.take(0)) =~= code@.subrange(0, 0));
    while i < n
        invariant
            v@ == code@,
            n == v@.len(),
            from <= i <= n,
            lines <= i,
            lines == line_feeds(code@.take(i as int)),
            last_line(code@.take(i as int)) == code@.subrange(from as int, i as int),
        decreases n - i,
    {
        assert(code@.take(i + 1).drop_last() =~= code@.take(i as int));
        if v[i] == '\n' {
            lines = lines + 1;
            from = i + 1;
            assert(code@.subrange(from as int, i + 1) =~= Seq::empty());
        } else {
            assert(code@.subrange(from as int, i as int).push(v@[i as int]) =~= code@.subrange(
                from as int,
                i + 1,
            ));
        }
        i = i + 1;
    }
    assert(code@.take(n as int) =~= code@);
    let line: String = text::string_of_range(&v, from, n);
    let bytes: usize = line.as_str().as_bytes().len();
    CodeLocation {
        uri,
        start: Position { line: 0, character: 0 },
        end: Position {
            line: #[verifier::truncate]
            (lines as u32),
            character: #[verifier::truncate]
            (bytes as u32),
        },
    }
}

/// The location of a cell's code in its temporary source file. `None` if the path
/// of the file is that of no URL, because it is not absolute.
pub fn notebook_code_location(prefix: &str, code: &str) -> (r: Option<CodeLocation>)
    ensures
        r is Some == urls::file_url(source_path(prefix@, code@)) is Some,
        r matches Some(location) ==> {
            &&& Some(location.uri@) == urls::file_url(source_path(prefix@, code@))
            &&& covers_cell(location, code@)
        },
{
    let path: String = notebook_source_path(prefix, code);
    match urls::url_of_file(path.as_str()) {
        Some(uri) => Some(whole_cell(uri, code)),
        None => None,
    }
}

/// Four bytes as a number, the first the lowest.
pub open spec fn word(data: Seq<u8>, i: int) -> u32 {
    (data[i] + data[i + 1] * 0x100 + data[i + 2] * 0x1_0000 + data[i + 3] * 0x100_0000) as u32
}

/// One word, mixed.
pub open spec fn mixed(k: u32) -> u32 {
    let k1 = k.wrapping_mul(0x5bd1e995);
    (k1 ^ (k1 >> 24u32)).wrapping_mul(0x5bd1e995)
}

/// The hash after the first `count` words.
pub open spec fn words_hashed(data: Seq<u8>, seed: u32, count: nat) -> u32
    decreases count,
{
    if count == 0 {
        seed ^ (data.len() as u32)
    } else {
        words_hashed(data, seed, (count - 1) as nat).wrapping_mul(0x5bd1e995) ^ mixed(
            word(data, 4 * (count - 1)),
        )
    }
}

/// The hash after the bytes that follow the last whole word.
pub open spec fn rest_hashed(data: Seq<u8>, seed: u32) -> u32 {
    let count = data.len() / 4;
    let i = (4 * count) as int;
    let h = words_hashed(data, seed, count);
    let left = data.len() % 4;
    let h3 = if left >= 3 {
        h ^ ((data[i + 2] as u32) << 16u32)
    } else {
        h
    };
    let h2 = if left >= 2 {
        h3 ^ ((data[i + 1] as u32) << 8u32)
    } else {
        h3
    };
    if left >= 1 {
        (h2 ^ (data[i] as u32)).wrapping_mul(0x5bd1e995)
    } else {
        h2
    }
}

/// MurmurHash2 of the bytes: the words mixed in one after the other, then the rest,
/// then the bits of the hash spread.
pub open spec fn spec_murmur2(data: Seq<u8>, seed: u32) -> u32 {
    let h = rest_hashed(data, seed);
    let h1 = (h ^ (h >> 13u32)).wrapping_mul(0x5bd1e995);
    h1 ^ (h1 >> 15u32)
}

/// MurmurHash2 of the bytes.
pub fn murmur2(data: &[u8], seed: u32) -> (r: u32)
    ensures
        r == spec_murmur2(data@, seed),
{
    let len: usize = data.len();
    #[verifier::truncate]
    let short: u32 = len as u32;
    let mut h: u32 = seed ^ short;
    let mut i: usize = 0;
    let ghost mut count: nat = 0;
    while len - i >= 4
        invariant
            len == data@.len(),
            i <= len,
            i == 4 * count,
            h == words_hashed(data@, seed, count),
        decreases len - i,
    {
        let low: u32 = data[i] as u32 + data[i + 1] as u32 * 0x100;
        let high: u32 = data[i + 2] as u32 * 0x1_0000 + data[i + 3] as u32 * 0x100_0000;
        let k: u32 = low + high;
        assert(k == word(data@, i as int));
        let k1: u32 = k.wrapping_mul(M);
        let k2: u32 = (k1 ^ (k1 >> 24u32)).wrapping_mul(M);
        h = h.wrapping_mul(M) ^ k2;
        i = i + 4;
        proof {
            count = count + 1;
        }
    }
    let left: usize = len - i;
    assert(count == data@.len() / 4);
    assert(left == data@.len() % 4);
    if left >= 3 {
        h = h ^ ((data[i + 2] as u32) << 16u32);
    }
    if left >= 2 {
        h = h ^ ((data[i + 1] as u32) << 8u32);
    }
    if left >= 1 {
        h = (h ^ (data[i] as u32)).wrapping_mul(M);
    }
    h = (h ^ (h >> 13u32)).wrapping_mul(M);
    h ^ (h >> 15u32)
}

/// Multiplying by the constant of the hash can be undone: it is odd.
proof fn lemma_times_undone(a: u32)
    ensures
        (a.wrapping_mul(0x5bd1e995) * 0xe59b19bd) % 0x1_0000_0000 == a,
{
    let n = 0x1_0000_0000int;
    let x = a as int * 0x5bd1e995;
    assert(a.wrapping_mul(0x5bd1e995) == x % n);
    vstd::arithmetic::div_mod::lemma_mul_mod_noop_left(x, 0xe59b19bd, n);
    let k = 0x525a6746int * a;
    assert(x * 0xe59b19bd == n * k + a) by (nonlinear_arith)
        requires
            x == a as int * 0x5bd1e995,
            k == 0x525a6746int * a,
            n == 0x1_0000_0000int,
    ;
    vstd::arithmetic::div_mod::lemma_mod_multiples_vanish(k, a as int, n);
}

proof fn lemma_times_apart(a: u32, b: u32)
    requires
        a != b,
    ensures
        a.wrapping_mul(0x5bd1e995) != b.wrapping_mul(0x5bd1e995),
{
    lemma_times_undone(a);
    lemma_times_undone(b);
}

proof fn lemma_xor_apart(a: u32, b: u32, k: u32)
    requires
        a != b,
    ensures
        a ^ k != b ^ k,
{
    assert(a ^ k != b ^ k) by (bit_vector)
        requires
            a != b,
    ;
}

proof fn lemma_words_apart(data: Seq<u8>, seed: u32, other: u32, count: nat)
    requires
        seed != other,
    ensures
        words_hashed(data, seed, count) != words_hashed(data, other, count),
    decreases count,
{
    if count == 0 {
        lemma_xor_apart(seed, other, data.len() as u32);
    } else {
        let less = (count - 1) as nat;
        let a = words_hashed(data, seed, less);
        let b = words_hashed(data, other, less);
        lemma_words_apart(data, seed, other, less);
        lemma_times_apart(a, b);
        lemma_xor_apart(
            a.wrapping_mul(0x5bd1e995),
            b.wrapping_mul(0x5bd1e995),
            mixed(word(data, 4 * (count - 1))),
        );
    }
}

proof fn lemma_rest_apart(data: Seq<u8>, seed: u32, other: u32)
    requires
        seed != other,
    ensures
        rest_hashed(data, seed) != rest_hashed(data, other),
{
    let count = data.len() / 4;
    let i = (4 * count) as int;
    let left = data.len() % 4;
    let a = words_hashed(data, seed, count);
    let b = words_hashed(data, other, count);
    lemma_words_apart(data, seed, other, count);
    let k3 = (data[i + 2] as u32) << 16u32;
    lemma_xor_apart(a, b, k3);
    let (a3, b3) = if left >= 3 {
        (a ^ k3, b ^ k3)
    } else {
        (a, b)
    };
    let k2 = (data[i + 1] as u32) << 8u32;
    lemma_xor_apart(a3, b3, k2);
    let (a2, b2) = if left >= 2 {
        (a3 ^ k2, b3 ^ k2)
    } else {
        (a3, b3)
    };
    let k1 = data[i] as u32;
    lemma_xor_apart(a2, b2, k1);
    lemma_times_apart(a2 ^ k1, b2 ^ k1);
}

/// The same bytes have different hashes with different seeds.
pub proof fn law_seeds_stay_apart(data: Seq<u8>, seed: u32, other: u32)
    requires
        seed != other,
    ensures
        spec_murmur2(data, seed) != spec_murmur2(data, other),
{
    let a = rest_hashed(data, seed);
    let b = rest_hashed(data, other);
    lemma_rest_apart(data, seed, other);
    assert(a ^ (a >> 13u32) != b ^ (b >> 13u32)) by (bit_vector)
        requires
            a != b,
    ;
    lemma_times_apart(a ^ (a >> 13u32), b ^ (b >> 13u32));
    let a1 = (a ^ (a >> 13u32)).wrapping_mul(0x5bd1e995);
    let b1 = (b ^ (b >> 13u32)).wrapping_mul(0x5bd1e995);
    assert(a1 ^ (a1 >> 15u32) != b1 ^ (b1 >> 15u32)) by (bit_vector)
        requires
            a1 != b1,
    ;
}

/// A cell starts at the start of its file. It ends in the line after its last line feed,
/// counted from zero, behind the bytes of that line.
pub proof fn law_cell_location(r: CodeLocation, head: Seq<char>, line: Seq<char>)
    requires
        !line.contains('\n'),
        line_feeds(head) < u32::MAX,
        vstd::utf8::encode_utf8(line).len() <= u32::MAX,
    ensures
        covers_cell(r, head.push('\n') + line) ==> r.start.line == 0 && r.start.character == 0
            && r.end.line == line_feeds(head) + 1 && r.end.character == vstd::utf8::encode_utf8(
            line,
        ).len(),
        covers_cell(r, line) ==> r.start.line == 0 && r.start.character == 0 && r.end.line == 0
            && r.end.character == vstd::utf8::encode_utf8(line).len(),
{
    lemma_last_line(head.push('\n'), line);
    lemma_last_line(Seq::empty(), line);
    assert(head.push('\n').drop_last() =~= head);
    assert(Seq::<char>::empty() + line =~= line);
    assert(last_line(head.push('\n')) + line =~= line);
    assert(last_line(Seq::empty()) + line =~= line);
    assert(line_feeds(Seq::empty()) == 0);
}

proof fn lemma_last_line(head: Seq<char>, line: Seq<char>)
    requires
        !line.contains('\n'),
    ensures
        last_line(head + line) == last_line(head) + line,
        line_feeds(head + line) == line_feeds(head),
    decreases line.len(),
{
    if line.len() == 0 {
        assert(head + line =~= head);
        assert(last_line(head) + line =~= last_line(head));
    } else {
        assert(line.contains(line.last()));
        assert(!line.drop_last().contains('\n')) by {
            if line.drop_last().contains('\n') {
                let k = choose|k: int| 0 <= k < line.len() - 1 && line.drop_last()[k] == '\n';
                assert(line[k] == '\n');
            }
        }
        lemma_last_line(head, line.drop_last());
        assert((head + line).drop_last() =~= head + line.drop_last());
        assert((last_line(head) + line.drop_last()).push(line.last()) =~= last_line(head) + line);
    }
}

/// Line feeds are counted one by one.
pub proof fn law_count_of_line_feeds(s: Seq<char>, c: char)
    ensures
        line_feeds(Seq::empty()) == 0,
        line_feeds(s.push('\n')) == line_feeds(s) + 1,
        c != '\n' ==> line_feeds(s.push(c)) == line_feeds(s),
{
    assert(s.push('\n').drop_last() =~= s);
    assert(s.push(c).drop_last() =~= s);
}

/// Temporary source files lie in a directory of the process, in the directory for
/// temporary files, and are named by the hash of the code with the seed zero.
pub proof fn law_where_cells_are_written(dir: Seq<char>, pid: u32, code: Seq<char>)
    requires
        dir.len() > 0,
        dir.last() != '/',
    ensures
        source_path(prefix_in(dir, pid), code) == dir + "/ark-debug-"@ + text::decimal(pid as nat)
            + "/"@ + text::decimal(spec_murmur2(vstd::utf8::encode_utf8(code), 0) as nat) + ".r"@,
        prefix_in(dir.push('/'), pid) == prefix_in(dir, pid),
{
    reveal_strlit("/ark-debug-");
    reveal_strlit("ark-debug-");
    assert("/ark-debug-"@ =~= seq!['/'] + "ark-debug-"@);
    assert(source_path(prefix_in(dir, pid), code) =~= dir + "/ark-debug-"@ + text::decimal(
        pid as nat,
    ) + "/"@ + text::decimal(spec_murmur2(vstd::utf8::encode_utf8(code), 0) as nat) + ".r"@);
}

/// A word is mixed and joined to the hash of the words before it.
pub proof fn law_words_are_mixed_in(data: Seq<u8>, seed: u32, n: nat)
    requires
        4 * n + 3 < data.len(),
    ensures
        words_hashed(data, seed, 0) == seed ^ (data.len() as u32),
        ({
            let word = data[4 * n as int] + 256 * data[4 * n as int + 1] + 65536 * data[4 * n as int
                + 2] + 16777216 * data[4 * n as int + 3];
            let a = ((word * 0x5bd1e995) % 0x1_0000_0000) as u32;
            let b = (((a ^ (a >> 24u32)) * 0x5bd1e995) % 0x1_0000_0000) as u32;
            let before = ((words_hashed(data, seed, n) * 0x5bd1e995) % 0x1_0000_0000) as u32;
            words_hashed(data, seed, n + 1) == before ^ b
        }),
{
    assert(word(data, 4 * n as int) == data[4 * n as int] + 256 * data[4 * n as int + 1] + 65536
        * data[4 * n as int + 2] + 16777216 * data[4 * n as int + 3]);
}

/// Up to three bytes follow the words. The last one of three comes highest. With
/// no byte left the hash of the words stays.
pub proof fn law_last_bytes_are_mixed_in(data: Seq<u8>, seed: u32, n: nat)
    requires
        n == data.len() / 4,
    ensures
        ({
            let h = words_hashed(data, seed, n);
            let i = 4 * n as int;
            &&& data.len() % 4 == 0 ==> rest_hashed(data, seed) == h
            &&& data.len() % 4 == 1 ==> rest_hashed(data, seed) == ((h ^ (data[i] as u32))
                * 0x5bd1e995) % 0x1_0000_0000
            &&& data.len() % 4 == 2 ==> rest_hashed(data, seed) == ((h ^ ((data[i + 1] as u32)
                << 8u32) ^ (data[i] as u32)) * 0x5bd1e995) % 0x1_0000_0000
            &&& data.len() % 4 == 3 ==> rest_hashed(data, seed) == ((h ^ ((data[i + 2] as u32)
                << 16u32) ^ ((data[i + 1] as u32) << 8u32) ^ (data[i] as u32)) * 0x5bd1e995)
                % 0x1_0000_0000
        }),
{
}

} // verus!
