//! Mount options: a comma-separated list is told apart into the flags that
//! the kernel's `mount` takes as bits and the options that are handed on to
//! the filesystem as text.

use itertools::Itertools;
use vstd::prelude::*;
use vstd::std_specs::iter::IteratorSpec;

verus! {

/// Mount read-only.
pub const MS_RDONLY: u64 = 0x1;

/// Ignore the set-user-ID and set-group-ID bits.
pub const MS_NOSUID: u64 = 0x2;

/// Do not give access to device files.
pub const MS_NODEV: u64 = 0x4;

/// Do not let programs be run.
pub const MS_NOEXEC: u64 = 0x8;

/// Write to the disk at once.
pub const MS_SYNCHRONOUS: u64 = 0x10;

/// Allow mandatory locks.
pub const MS_MANDLOCK: u64 = 0x40;

/// Write changes of directories to the disk at once.
pub const MS_DIRSYNC: u64 = 0x80;

/// Do not update access times.
pub const MS_NOATIME: u64 = 0x400;

/// Do not update the access times of directories.
pub const MS_NODIRATIME: u64 = 0x800;

/// Update an access time only where it is older than the time of the last
/// change.
pub const MS_RELATIME: u64 = 0x20_0000;

/// Always update access times.
pub const MS_STRICTATIME: u64 = 0x100_0000;

/// Keep changes of times in memory for as long as possible.
pub const MS_LAZYTIME: u64 = 0x200_0000;

/// The views of a sequence of strings.
pub open spec fn texts(strings: Seq<String>) -> Seq<Seq<char>> {
    strings.map_values(|s: String| s@)
}

/// The tokens of a comma-separated list. Read character by character, a
/// comma opens a new token and any other character extends the last one, so
/// there is one token more than there are commas.
pub open spec fn split_commas(s: Seq<char>) -> Seq<Seq<char>>
    decreases s.len(),
{
    if s.len() == 0 {
        seq![Seq::empty()]
    } else {
        let before = split_commas(s.drop_last());
        if s.last() == ',' {
            before.push(Seq::empty())
        } else {
            before.drop_last().push(before.last().push(s.last()))
        }
    }
}

/// `parts` written one after the other with `sep` between neighbours.
pub open spec fn join(parts: Seq<Seq<char>>, sep: Seq<char>) -> Seq<char>
    decreases parts.len(),
{
    if parts.len() == 0 {
        Seq::empty()
    } else if parts.len() == 1 {
        parts[0]
    } else {
        join(parts.drop_last(), sep) + sep + parts.last()
    }
}

/// The bits that a token stands for, where it is one of the options that
/// `mount` knows as flags. The empty token and `rw` are known and stand for no
/// bit.
pub open spec fn keyword_bits(token: Seq<char>) -> Option<u64> {
    if token.len() == 0 {
        Some(0)
    } else if token == "dirsync"@ {
        Some(MS_DIRSYNC)
    } else if token == "lazytime"@ {
        Some(MS_LAZYTIME)
    } else if token == "mand"@ {
        Some(MS_MANDLOCK)
    } else if token == "noatime"@ {
        Some(MS_NOATIME)
    } else if token == "nodev"@ {
        Some(MS_NODEV)
    } else if token == "nodiratime"@ {
        Some(MS_NODIRATIME)
    } else if token == "noexec"@ {
        Some(MS_NOEXEC)
    } else if token == "nosuid"@ {
        Some(MS_NOSUID)
    } else if token == "ro"@ {
        Some(MS_RDONLY)
    } else if token == "rw"@ {
        Some(0)
    } else if token == "relatime"@ {
        Some(MS_RELATIME)
    } else if token == "strictatime"@ {
        Some(MS_STRICTATIME)
    } else if token == "sync"@ {
        Some(MS_SYNCHRONOUS)
    } else {
        None
    }
}

/// The bits of all the tokens that stand for one, or'ed together.
pub open spec fn flags_of(tokens: Seq<Seq<char>>) -> u64
    decreases tokens.len(),
{
    if tokens.len() == 0 {
        0
    } else {
        let bits = match keyword_bits(tokens.last()) {
            Some(b) => b,
            None => 0,
        };
        flags_of(tokens.drop_last()) | bits
    }
}

/// The tokens that stand for no flag, in the order in which they came.
pub open spec fn residual_of(tokens: Seq<Seq<char>>) -> Seq<Seq<char>> {
    tokens.filter(stands_for_no_flag())
}

/// The test that picks the residual tokens.
pub open spec fn stands_for_no_flag() -> spec_fn(Seq<char>) -> bool {
    |t: Seq<char>| keyword_bits(t) is None
}

/// No character of `t` is a comma.
pub open spec fn comma_free(t: Seq<char>) -> bool {
    forall|i: int| 0 <= i < t.len() ==> t[i] != ','
}

/// The mount flags that an option string asks for.
pub open spec fn option_flags(options: Seq<char>) -> u64 {
    flags_of(split_commas(options))
}

/// The text that an option string leaves for the filesystem: its tokens that
/// stand for no flag, separated by commas, or `None` where there is none.
pub open spec fn option_data(options: Seq<char>) -> Option<Seq<char>> {
    let residual = residual_of(split_commas(options));
    if residual.len() == 0 {
        None
    } else {
        Some(join(residual, seq![',']))
    }
}

/// The bits of the flags of `mount`, by the names of their options.
pub struct MountFlagBits {
    pub dirsync: u64,
    pub lazytime: u64,
    pub mand: u64,
    pub noatime: u64,
    pub nodev: u64,
    pub nodiratime: u64,
    pub noexec: u64,
    pub nosuid: u64,
    pub ro: u64,
    pub relatime: u64,
    pub strictatime: u64,
    pub sync: u64,
}

/// The `MS_*` constants of the libc crate, which have these values on every
/// Linux target.
#[verifier::external_body]
fn mount_flag_bits() -> (bits: MountFlagBits)
    ensures
        bits.dirsync == MS_DIRSYNC,
        bits.lazytime == MS_LAZYTIME,
        bits.mand == MS_MANDLOCK,
        bits.noatime == MS_NOATIME,
        bits.nodev == MS_NODEV,
        bits.nodiratime == MS_NODIRATIME,
        bits.noexec == MS_NOEXEC,
        bits.nosuid == MS_NOSUID,
        bits.ro == MS_RDONLY,
        bits.relatime == MS_RELATIME,
        bits.strictatime == MS_STRICTATIME,
        bits.sync == MS_SYNCHRONOUS,
{
    MountFlagBits {
        dirsync: libc::MS_DIRSYNC as u64,
        lazytime: libc::MS_LAZYTIME as u64,
        mand: libc::MS_MANDLOCK as u64,
        noatime: libc::MS_NOATIME as u64,
        nodev: libc::MS_NODEV as u64,
        nodiratime: libc::MS_NODIRATIME as u64,
        noexec: libc::MS_NOEXEC as u64,
        nosuid: libc::MS_NOSUID as u64,
        ro: libc::MS_RDONLY as u64,
        relatime: libc::MS_RELATIME as u64,
        strictatime: libc::MS_STRICTATIME as u64,
        sync: libc::MS_SYNCHRONOUS as u64,
    }
}

/// `Itertools::join` of the itertools crate over the strings of a vector: the
/// first string, then for each further one the separator and the string; the
/// empty string for no strings.
#[verifier::external_body]
pub(crate) fn join_strings(parts: &Vec<String>, sep: &str) -> (joined: String)
    ensures
        joined@ == join(texts(parts@), sep@),
{
    parts.iter().join(sep)
}

/// Whether two strings hold the same characters.
fn same_text(a: &str, b: &str) -> (same: bool)
    ensures
        same == (a@ == b@),
{
    let mut left = a.chars();
    let mut right = b.chars();
    let ghost mut seen: int = 0;
    loop
        invariant
            0 <= seen <= a@.len(),
            seen <= b@.len(),
            left.remaining() == a@.skip(seen),
            right.remaining() == b@.skip(seen),
            a@.take(seen) == b@.take(seen),
        decreases a@.len() - seen,
    {
        let x = left.next();
        let y = right.next();
        match (x, y) {
            (None, None) => {
                proof {
                    assert(a@ =~= a@.take(seen));
                    assert(b@ =~= b@.take(seen));
                }
                return true;
            },
            (Some(c), Some(d)) => {
                if c != d {
                    proof {
                    }
                    return false;
                }
                proof {
                    seen = seen + 1;
                }
            },
            _ => {
                return false;
            },
        }
    }
}

impl MountFlagBits {
    /// Every bit is the one that the kernel knows under that name.
    pub open spec fn is_kernels(&self) -> bool {
        &&& self.dirsync == MS_DIRSYNC
        &&& self.lazytime == MS_LAZYTIME
        &&& self.mand == MS_MANDLOCK
        &&& self.noatime == MS_NOATIME
        &&& self.nodev == MS_NODEV
        &&& self.nodiratime == MS_NODIRATIME
        &&& self.noexec == MS_NOEXEC
        &&& self.nosuid == MS_NOSUID
        &&& self.ro == MS_RDONLY
        &&& self.relatime == MS_RELATIME
        &&& self.strictatime == MS_STRICTATIME
        &&& self.sync == MS_SYNCHRONOUS
    }
}

/// The bits that `token` stands for, if it is an option that `mount` knows as
/// a flag.
fn keyword(token: &str, bits: &MountFlagBits) -> (found: Option<u64>)
    requires
        bits.is_kernels(),
    ensures
        found == keyword_bits(token@),
{
    if token.is_empty() {
        Some(0)
    } else if same_text(token, "dirsync") {
        Some(bits.dirsync)
    } else if same_text(token, "lazytime") {
        Some(bits.lazytime)
    } else if same_text(token, "mand") {
        Some(bits.mand)
    } else if same_text(token, "noatime") {
        Some(bits.noatime)
    } else if same_text(token, "nodev") {
        Some(bits.nodev)
    } else if same_text(token, "nodiratime") {
        Some(bits.nodiratime)
    } else if same_text(token, "noexec") {
        Some(bits.noexec)
    } else if same_text(token, "nosuid") {
        Some(bits.nosuid)
    } else if same_text(token, "ro") {
        Some(bits.ro)
    } else if same_text(token, "rw") {
        Some(0)
    } else if same_text(token, "relatime") {
        Some(bits.relatime)
    } else if same_text(token, "strictatime") {
        Some(bits.strictatime)
    } else if same_text(token, "sync") {
        Some(bits.sync)
    } else {
        None
    }
}

/// What one more token adds to the flags and to the residual list.
proof fn lemma_one_more_token(tokens: Seq<Seq<char>>, token: Seq<char>)
    ensures
        flags_of(tokens.push(token)) == flags_of(tokens) | match keyword_bits(token) {
            Some(b) => b,
            None => 0,
        },
        residual_of(tokens.push(token)) == if keyword_bits(token) is None {
            residual_of(tokens).push(token)
        } else {
            residual_of(tokens)
        },
{
    reveal(Seq::filter);
    assert(tokens.push(token).drop_last() =~= tokens);
}

/// Adds one token to the flags or to the residual list.
fn take_token(
    token: &str,
    bits: &MountFlagBits,
    flags: &mut u64,
    residual: &mut Vec<String>,
    Ghost(tokens): Ghost<Seq<Seq<char>>>,
)
    requires
        bits.is_kernels(),
        *old(flags) == flags_of(tokens),
        texts(old(residual)@) == residual_of(tokens),
    ensures
        *final(flags) == flags_of(tokens.push(token@)),
        texts(final(residual)@) == residual_of(tokens.push(token@)),
{
    proof {
        lemma_one_more_token(tokens, token@);
        assert(*flags | 0 == *flags) by (bit_vector);
    }
    match keyword(token, bits) {
        Some(b) => {
            *flags = *flags | b;
        },
        None => {
            residual.push(token.to_owned());
        },
    }
}

/// Parses comma-separated mount options: the flags that the options known to
/// `mount` stand for, and the other options, joined by commas again, as the
/// data for the filesystem.
pub fn parse_mount_options(options: &str) -> (parsed: (Option<String>, u64))
    ensures
        parsed.1 == option_flags(options@),
        match parsed.0 {
            Some(data) => option_data(options@) == Some(data@),
            None => option_data(options@) is None,
        },
{
    let bits = mount_flag_bits();
    let total = options.unicode_len();
    let mut residual: Vec<String> = Vec::new();
    let mut flags: u64 = 0;
    let mut start: usize = 0;
    let mut at: usize = 0;
    let mut chars = options.chars();
    let ghost mut done: Seq<Seq<char>> = Seq::empty();
    proof {
        assert(options@.subrange(0, 0) =~= Seq::<char>::empty());
        assert(texts(residual@) =~= residual_of(done)) by {
            reveal(Seq::filter);
        }
    }
    loop
        invariant_except_break
            chars.remaining() == options@.skip(at as int),
        invariant
            start <= at <= total,
            total == options@.len(),
            split_commas(options@.take(at as int)) == done.push(
                options@.subrange(start as int, at as int),
            ),
            flags == flags_of(done),
            texts(residual@) == residual_of(done),
            bits.is_kernels(),
        ensures
            at == total,
        decreases total - at,
    {
        match chars.next() {
            None => {
                break ;
            },
            Some(c) => {
                proof {
                    let next = options@.take(at + 1);
                    assert(next.drop_last() =~= options@.take(at as int));
                }
                if c == ',' {
                    let token = options.substring_char(start, at);
                    take_token(token, &bits, &mut flags, &mut residual, Ghost(done));
                    proof {
                        done = done.push(token@);
                        assert(options@.subrange(at + 1, at + 1) =~= Seq::<char>::empty());
                    }
                    start = at + 1;
                } else {
                    proof {
                        let grown = done.push(options@.subrange(start as int, at as int));
                        assert(options@.subrange(start as int, at + 1) =~= grown.last().push(c));
                    }
                }
                at = at + 1;
            },
        }
    }
    let token = options.substring_char(start, at);
    take_token(token, &bits, &mut flags, &mut residual, Ghost(done));
    proof {
        assert(options@.take(at as int) =~= options@);
        reveal_strlit(",");
        assert(","@ =~= seq![',']);
    }
    let data = if residual.len() == 0 {
        None
    } else {
        Some(join_strings(&residual, ","))
    };
    (data, flags)
}

/// Splitting at commas is the inverse of joining by commas: there is at
/// least one token, no token holds a comma, and the tokens joined by commas
/// are the list that was split.
pub proof fn lemma_split_commas(s: Seq<char>)
    ensures
        split_commas(s).len() >= 1,
        forall|k: int|
            0 <= k < split_commas(s).len() ==> comma_free(#[trigger] split_commas(s)[k]),
        join(split_commas(s), seq![',']) == s,
    decreases s.len(),
{
    if s.len() > 0 {
        lemma_split_commas(s.drop_last());
        let before = split_commas(s.drop_last());
        let tokens = split_commas(s);
        if s.last() == ',' {
            assert(tokens.drop_last() =~= before);
        } else if before.len() > 1 {
            assert(tokens.drop_last() =~= before.drop_last());
            assert(s.drop_last().push(s.last()) =~= s);
        }
    }
}

/// A list without a comma is its own single token.
proof fn lemma_split_single(t: Seq<char>)
    requires
        comma_free(t),
    ensures
        split_commas(t) == seq![t],
    decreases t.len(),
{
    if t.len() > 0 {
        lemma_split_single(t.drop_last());
    }
    assert(split_commas(t) =~~= seq![t]);
}

/// A comma and a token behind a list add that token to the list's tokens.
proof fn lemma_split_append(a: Seq<char>, b: Seq<char>)
    requires
        comma_free(b),
    ensures
        split_commas(a + seq![','] + b) == split_commas(a).push(b),
    decreases b.len(),
{
    let whole = a + seq![','] + b;
    if b.len() == 0 {
        assert(whole.drop_last() =~= a);
    } else {
        lemma_split_append(a, b.drop_last());
        assert(whole.drop_last() =~= a + seq![','] + b.drop_last());
    }
    assert(split_commas(whole) =~~= split_commas(a).push(b));
}

/// Tokens without commas, joined by commas, split into the same tokens.
pub proof fn lemma_split_of_join(parts: Seq<Seq<char>>)
    requires
        parts.len() >= 1,
        forall|k: int| 0 <= k < parts.len() ==> comma_free(#[trigger] parts[k]),
    ensures
        split_commas(join(parts, seq![','])) == parts,
    decreases parts.len(),
{
    if parts.len() == 1 {
        lemma_split_single(parts[0]);
    } else {
        lemma_split_of_join(parts.drop_last());
        lemma_split_append(join(parts.drop_last(), seq![',']), parts.last());
    }
}

/// Tokens that all stand for no flag give no flags and are all residual.
proof fn lemma_all_residual(tokens: Seq<Seq<char>>)
    requires
        forall|k: int| 0 <= k < tokens.len() ==> keyword_bits(#[trigger] tokens[k]) is None,
    ensures
        flags_of(tokens) == 0,
        residual_of(tokens) == tokens,
    decreases tokens.len(),
{
    reveal(Seq::filter);
    if tokens.len() > 0 {
        lemma_all_residual(tokens.drop_last());
        assert(0u64 | 0u64 == 0u64) by (bit_vector);
    }
}

/// The residual tokens come from the list in the list's order: any two of
/// them stand at two places of the list, in the same order.
pub proof fn lemma_residual_keeps_order(tokens: Seq<Seq<char>>, i: int, j: int)
    requires
        0 <= i < j < residual_of(tokens).len(),
    ensures
        exists|p: int, q: int|
            0 <= p < q < tokens.len() && #[trigger] tokens[p] == residual_of(tokens)[i]
                && #[trigger] tokens[q] == residual_of(tokens)[j],
    decreases tokens.len(),
{
    reveal(Seq::filter);
    let residual = residual_of(tokens);
    let shorter = tokens.drop_last();
    let earlier = residual_of(shorter);
    if keyword_bits(tokens.last()) is None && j == residual.len() - 1 {
        shorter.lemma_filter_contains_rev(stands_for_no_flag(), earlier[i]);
        let p = choose|p: int| 0 <= p < shorter.len() && shorter[p] == earlier[i];
        let q = tokens.len() - 1;
        assert(tokens[p] == residual[i] && tokens[q] == residual[j]);
    } else {
        lemma_residual_keeps_order(shorter, i, j);
        let (p, q) = choose|p: int, q: int|
            0 <= p < q < shorter.len() && #[trigger] shorter[p] == earlier[i]
                && #[trigger] shorter[q] == earlier[j];
        assert(tokens[p] == residual[i] && tokens[q] == residual[j]);
    }
}

/// Parsing is idempotent: the data that parsing leaves for the filesystem,
/// parsed again, asks for no flag and leaves the same data.
pub proof fn lemma_parsing_is_idempotent(options: Seq<char>)
    ensures
        option_data(options) matches Some(data) ==> option_flags(data) == 0 && option_data(data)
            == Some(data),
{
    let tokens = split_commas(options);
    let residual = residual_of(tokens);
    if residual.len() > 0 {
        lemma_split_commas(options);
        assert forall|k: int| 0 <= k < residual.len() implies comma_free(#[trigger] residual[k])
            && keyword_bits(residual[k]) is None by {
            tokens.lemma_filter_pred(stands_for_no_flag(), k);
            tokens.lemma_filter_contains_rev(stands_for_no_flag(), residual[k]);
        }
        lemma_split_of_join(residual);
        lemma_all_residual(residual);
    }
}

} // verus!
