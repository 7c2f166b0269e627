//! Reading the values that a wallet command prints: addresses, private keys
//! and keystore names.
use vstd::prelude::*;
use crate::models::WalletInfo;
use crate::text::{
    chars_of, decode_lossy, is_white_space, starts_with, string_of, trim, trim_end, trim_end_len,
    trim_start_from, utf8_lossy, white_space,
};

verus! {

/// The lines of `s` when the line under way holds `cur`. A line ends at
/// `\n`, and a `\r` just before that `\n` is dropped; text after the last
/// `\n` is a line only if it is not empty.
pub open spec fn lines_from(s: Seq<char>, cur: Seq<char>) -> Seq<Seq<char>>
    decreases s.len(),
{
    if s.len() == 0 {
        if cur.len() == 0 {
            Seq::empty()
        } else {
            seq![cur]
        }
    } else if s[0] == '\n' {
        seq![drop_cr(cur)] + lines_from(s.drop_first(), Seq::empty())
    } else {
        lines_from(s.drop_first(), cur.push(s[0]))
    }
}

pub open spec fn drop_cr(line: Seq<char>) -> Seq<char> {
    if line.len() > 0 && line.last() == '\r' {
        line.drop_last()
    } else {
        line
    }
}

/// The lines of `s`, as `str::lines` gives them.
pub open spec fn lines(s: Seq<char>) -> Seq<Seq<char>> {
    lines_from(s, Seq::empty())
}

/// Whether `p` occurs in `s` at position `i`.
pub open spec fn occurs_at(s: Seq<char>, p: Seq<char>, i: int) -> bool {
    0 <= i && i + p.len() <= s.len() && s.subrange(i, i + p.len()) == p
}

/// The first position at or after `start` where `p` occurs in `s`.
pub open spec fn find_from(s: Seq<char>, p: Seq<char>, start: int) -> Option<int>
    decreases s.len() + 1 - start,
{
    if start < 0 || start + p.len() > s.len() {
        None
    } else if occurs_at(s, p, start) {
        Some(start)
    } else {
        find_from(s, p, start + 1)
    }
}

/// The text between the first and the second occurrence of `p` in `s` (or
/// the end of `s`), as `s.split(p).nth(1)` gives it; `None` where `p` does
/// not occur.
pub open spec fn second_field(s: Seq<char>, p: Seq<char>) -> Option<Seq<char>> {
    match find_from(s, p, 0) {
        None => None,
        Some(i) => {
            let b = i + p.len();
            match find_from(s, p, b) {
                Some(j) => Some(s.subrange(b, j)),
                None => Some(s.subrange(b, s.len() as int)),
            }
        },
    }
}

/// The text of `s` before the first occurrence of `p`, or all of `s`.
pub open spec fn first_field(s: Seq<char>, p: Seq<char>) -> Seq<char> {
    match find_from(s, p, 0) {
        Some(i) => s.take(i),
        None => s,
    }
}

/// The last run of characters of `s` that are not white space, ending at
/// its end.
pub open spec fn trailing_word(s: Seq<char>) -> Seq<char>
    decreases s.len(),
{
    if s.len() == 0 || is_white_space(s.last()) {
        Seq::empty()
    } else {
        trailing_word(s.drop_last()).push(s.last())
    }
}

/// The last word of `s`, as `s.split_whitespace().last()` gives it.
pub open spec fn last_word(s: Seq<char>) -> Option<Seq<char>> {
    let t = trim_end(s);
    if t.len() == 0 {
        None
    } else {
        Some(trailing_word(t))
    }
}

/// `s` with `p` removed from its start for as long as it starts with `p`.
pub open spec fn strip_prefixes(s: Seq<char>, p: Seq<char>) -> Seq<char>
    decreases s.len(),
{
    if p.len() > 0 && starts_with(s, p) {
        strip_prefixes(s.skip(p.len() as int), p)
    } else {
        s
    }
}

/// The first of `ls` whose trimmed text starts with `p`.
pub open spec fn first_line_starting(ls: Seq<Seq<char>>, p: Seq<char>) -> Option<Seq<char>>
    decreases ls.len(),
{
    if ls.len() == 0 {
        None
    } else if starts_with(trim(ls[0]), p) {
        Some(ls[0])
    } else {
        first_line_starting(ls.drop_first(), p)
    }
}

proof fn lemma_find_from(s: Seq<char>, p: Seq<char>, start: int)
    ensures
        match find_from(s, p, start) {
            Some(i) => start <= i && occurs_at(s, p, i),
            None => true,
        },
    decreases s.len() + 1 - start,
{
    if !(start < 0 || start + p.len() > s.len()) && !occurs_at(s, p, start) {
        lemma_find_from(s, p, start + 1);
    }
}

pub open spec fn views(v: Seq<Vec<char>>) -> Seq<Seq<char>> {
    v.map_values(|x: Vec<char>| x@)
}

fn copy_range(s: &[char], from: usize, to: usize) -> (r: Vec<char>)
    requires
        from <= to <= s@.len(),
    ensures
        r@ == s@.subrange(from as int, to as int),
{
    let mut r: Vec<char> = Vec::new();
    let mut i: usize = from;
    while i < to
        invariant
            from <= i <= to <= s@.len(),
            r@ == s@.subrange(from as int, i as int),
        decreases to - i,
    {
        r.push(s[i]);
        i = i + 1;
        assert(r@ =~= s@.subrange(from as int, i as int));
    }
    r
}

/// The lines of `s`.
fn split_lines(s: &[char]) -> (r: Vec<Vec<char>>)
    ensures
        views(r@) == lines(s@),
{
    let mut out: Vec<Vec<char>> = Vec::new();
    let mut cur: Vec<char> = Vec::new();
    let mut i: usize = 0;
    assert(s@.skip(0) =~= s@);
    assert(views(out@) =~= Seq::<Seq<char>>::empty());
    assert(views(out@) + lines(s@) =~= lines(s@));
    while i < s.len()
        invariant
            i <= s@.len(),
            lines(s@) == views(out@) + lines_from(s@.skip(i as int), cur@),
        decreases s@.len() - i,
    {
        let c = s[i];
        let ghost rest = s@.skip(i as int);
        assert(rest[0] == c);
        assert(rest.drop_first() =~= s@.skip(i + 1));
        if c == '\n' {
            let ghost whole = cur@;
            let n = cur.len();
            if n > 0 && cur[n - 1] == '\r' {
                cur.pop();
            }
            let ghost before = views(out@);
            out.push(cur);
            let ghost line = cur@;
            assert(line == drop_cr(whole)) by {
                if n > 0 && whole.last() == '\r' {
                    assert(line =~= whole.drop_last());
                }
            }
            assert(views(out@) =~= before.push(line));
            cur = Vec::new();
            let ghost tail = lines_from(s@.skip(i + 1), cur@);
            assert(before + (seq![line] + tail) =~= views(out@) + tail);
        } else {
            cur.push(c);
        }
        i = i + 1;
    }
    assert(s@.skip(i as int) =~= Seq::<char>::empty());
    if cur.len() > 0 {
        let ghost before = views(out@);
        let ghost last = cur@;
        out.push(cur);
        assert(views(out@) =~= before.push(last));
        assert(before + seq![last] =~= views(out@));
    } else {
        assert(views(out@) + Seq::<Seq<char>>::empty() =~= views(out@));
    }
    out
}

fn occurs_here(s: &[char], p: &[char], i: usize) -> (r: bool)
    requires
        i as int + p@.len() <= s.len(),
    ensures
        r == occurs_at(s@, p@, i as int),
{
    let mut k: usize = 0;
    while k < p.len()
        invariant
            k <= p@.len(),
            i as int + p@.len() <= s.len(),
            s@.subrange(i as int, i + k) == p@.take(k as int),
        decreases p@.len() - k,
    {
        if s[i + k] != p[k] {
            assert(s@.subrange(i as int, i + p@.len())[k as int] != p@[k as int]);
            return false;
        }
        k = k + 1;
        assert(s@.subrange(i as int, i + k) =~= p@.take(k as int));
    }
    assert(p@.take(k as int) =~= p@);
    true
}

fn find(s: &[char], p: &[char], start: usize) -> (r: Option<usize>)
    ensures
        match r {
            Some(i) => find_from(s@, p@, start as int) == Some(i as int),
            None => find_from(s@, p@, start as int) is None,
        },
{
    let mut i: usize = start;
    while i <= s.len() && p.len() <= s.len() - i
        invariant
            start <= i,
            find_from(s@, p@, start as int) == find_from(s@, p@, i as int),
        decreases s@.len() + 1 - i,
    {
        if occurs_here(s, p, i) {
            return Some(i);
        }
        if p.len() == 0 {
            assert(s@.subrange(i as int, i as int) =~= p@);
        }
        i = i + 1;
    }
    None
}

fn second_field_of(s: &[char], p: &[char]) -> (r: Option<Vec<char>>)
    ensures
        match r {
            Some(v) => second_field(s@, p@) == Some(v@),
            None => second_field(s@, p@) is None,
        },
{
    match find(s, p, 0) {
        None => None,
        Some(i) => {
            proof {
                lemma_find_from(s@, p@, 0);
                assert(s@.len() == s.len());
            }
            let b = i + p.len();
            match find(s, p, b) {
                Some(j) => {
                    proof {
                        lemma_find_from(s@, p@, b as int);
                    }
                    Some(copy_range(s, b, j))
                },
                None => Some(copy_range(s, b, s.len())),
            }
        },
    }
}

/// `s` without leading and trailing white space.
fn trimmed(s: &[char]) -> (r: Vec<char>)
    ensures
        r@ == trim(s@),
{
    let e = trim_end_len(s, s.len());
    assert(s@.take(s.len() as int) =~= s@);
    let b = trim_start_from(s, 0, e);
    assert(s@.subrange(0, e as int) =~= s@.take(e as int));
    copy_range(s, b, e)
}

/// Reads a private key from the output of `cast wallet decrypt-keystore`:
/// the trimmed text after `"private key is: "`.
pub fn parse_private_key_from_output(output_str: &str) -> (r: Result<String, String>)
    ensures
        match second_field(output_str@, "private key is: "@) {
            Some(f) => r is Ok && r->Ok_0@ == trim(f),
            None => r is Err && r->Err_0@ == "Could not find private key in output"@,
        },
{
    labelled_value(output_str, "private key is: ", "Could not find private key in output")
}

/// Reads an address from the output of `cast wallet import`: the trimmed
/// text after `"Address: "`.
pub fn parse_address_from_output(output_str: &str) -> (r: Result<String, String>)
    ensures
        match second_field(output_str@, "Address: "@) {
            Some(f) => r is Ok && r->Ok_0@ == trim(f),
            None => r is Err && r->Err_0@ == "Could not find address in output"@,
        },
{
    labelled_value(output_str, "Address: ", "Could not find address in output")
}

fn labelled_value(output_str: &str, label: &str, missing: &str) -> (r: Result<String, String>)
    ensures
        match second_field(output_str@, label@) {
            Some(f) => r is Ok && r->Ok_0@ == trim(f),
            None => r is Err && r->Err_0@ == missing@,
        },
{
    let s = chars_of(output_str);
    let p = chars_of(label);
    match second_field_of(s.as_slice(), p.as_slice()) {
        Some(f) => Ok(string_of(trimmed(f.as_slice()).as_slice())),
        None => Err(String::from_str(missing)),
    }
}

fn starts_with_at(s: &[char], p: &[char], k: usize) -> (r: bool)
    requires
        k <= s@.len(),
    ensures
        r == starts_with(s@.skip(k as int), p@),
{
    assert(s@.len() == s.len());
    if p.len() <= s.len() - k {
        assert(s@.skip(k as int).subrange(0, p@.len() as int) =~= s@.subrange(
            k as int,
            k + p@.len(),
        ));
        occurs_here(s, p, k)
    } else {
        false
    }
}

/// The last word of `l`.
fn last_word_of(l: &[char]) -> (r: Option<Vec<char>>)
    ensures
        match r {
            Some(v) => last_word(l@) == Some(v@),
            None => last_word(l@) is None,
        },
{
    let e = trim_end_len(l, l.len());
    assert(l@.take(l.len() as int) =~= l@);
    if e == 0 {
        return None;
    }
    let mut k: usize = e;
    assert(trailing_word(l@.take(e as int)) + l@.subrange(e as int, e as int) =~= trailing_word(
        l@.take(e as int),
    ));
    while k > 0 && !white_space(l[k - 1])
        invariant
            k <= e <= l@.len(),
            trailing_word(l@.take(e as int)) == trailing_word(l@.take(k as int)) + l@.subrange(
                k as int,
                e as int,
            ),
        decreases k,
    {
        let ghost t = l@.take(k as int);
        assert(t.drop_last() =~= l@.take(k - 1));
        assert(t.last() == l@[k - 1]);
        assert(trailing_word(l@.take(k - 1)).push(l@[k - 1]) + l@.subrange(k as int, e as int)
            =~= trailing_word(l@.take(k - 1)) + l@.subrange(k - 1, e as int));
        k = k - 1;
    }
    assert(trailing_word(l@.take(k as int)) =~= Seq::<char>::empty()) by {
        if k > 0 {
            assert(l@.take(k as int).last() == l@[k - 1]);
        }
    }
    assert(trailing_word(l@.take(e as int)) =~= l@.subrange(k as int, e as int));
    Some(copy_range(l, k, e))
}

/// The last word of the first line whose trimmed text starts with `p`.
pub open spec fn labelled_word(s: Seq<char>, p: Seq<char>) -> Option<Seq<char>> {
    match first_line_starting(lines(s), p) {
        Some(l) => last_word(l),
        None => None,
    }
}

fn labelled_word_of(ls: &Vec<Vec<char>>, p: &[char]) -> (r: Option<Vec<char>>)
    ensures
        match r {
            Some(v) => match first_line_starting(views(ls@), p@) {
                Some(l) => last_word(l) == Some(v@),
                None => false,
            },
            None => match first_line_starting(views(ls@), p@) {
                Some(l) => last_word(l) is None,
                None => true,
            },
        },
{
    let mut i: usize = 0;
    assert(views(ls@).skip(0) =~= views(ls@));
    while i < ls.len()
        invariant
            i <= ls@.len(),
            first_line_starting(views(ls@), p@) == first_line_starting(
                views(ls@).skip(i as int),
                p@,
            ),
        decreases ls@.len() - i,
    {
        let ghost rest = views(ls@).skip(i as int);
        assert(rest[0] == ls@[i as int]@);
        assert(rest.drop_first() =~= views(ls@).skip(i + 1));
        let t = trimmed(ls[i].as_slice());
        assert(t@.skip(0) =~= t@);
        if starts_with_at(t.as_slice(), p, 0) {
            return last_word_of(ls[i].as_slice());
        }
        i = i + 1;
    }
    assert(views(ls@).skip(i as int) =~= Seq::<Seq<char>>::empty());
    None
}

/// Reads the address and the private key from the output of
/// `cast wallet new`: the last word of the first line that starts with
/// `"Address:"`, and of the first that starts with `"Private key:"`.
pub fn parse_wallet_output(output_str: &str) -> (r: Result<WalletInfo, String>)
    ensures
        match (labelled_word(output_str@, "Address:"@), labelled_word(output_str@, "Private key:"@)) {
            (Some(a), Some(k)) => r is Ok && r->Ok_0.address@ == a && r->Ok_0.private_key@ == k,
            (None, _) => r is Err && r->Err_0@ == "Could not parse address from output"@,
            (Some(_), None) => r is Err && r->Err_0@ == "Could not parse private key from output"@,
        },
{
    let s = chars_of(output_str);
    let ls = split_lines(s.as_slice());
    let pa = chars_of("Address:");
    let address = match labelled_word_of(&ls, pa.as_slice()) {
        Some(a) => a,
        None => {
            return Err(String::from_str("Could not parse address from output"));
        },
    };
    let pk = chars_of("Private key:");
    let private_key = match labelled_word_of(&ls, pk.as_slice()) {
        Some(k) => k,
        None => {
            return Err(String::from_str("Could not parse private key from output"));
        },
    };
    Ok(
        WalletInfo {
            address: string_of(address.as_slice()),
            private_key: string_of(private_key.as_slice()),
        },
    )
}

fn strip_prefixes_of(l: &[char], p: &[char]) -> (r: Vec<char>)
    ensures
        r@ == strip_prefixes(l@, p@),
{
    let mut k: usize = 0;
    assert(l@.skip(0) =~= l@);
    while k < l.len() && p.len() > 0 && starts_with_at(l, p, k)
        invariant
            k <= l@.len(),
            strip_prefixes(l@, p@) == strip_prefixes(l@.skip(k as int), p@),
        decreases l@.len() - k,
    {
        assert(l@.skip(k as int).skip(p@.len() as int) =~= l@.skip(k + p@.len()));
        k = k + p.len();
    }
    if k == l.len() && p.len() > 0 {
        assert(!starts_with(l@.skip(k as int), p@));
    }
    assert(l@.skip(k as int) =~= l@.subrange(k as int, l@.len() as int));
    copy_range(l, k, l.len())
}

/// What the output of `cast wallet vanity` yields: the third line without
/// its `"Address: "` prefixes and the fourth without its `"Private Key: "`
/// prefixes, or `None` where it has fewer than four lines.
pub open spec fn vanity_fields(s: Seq<char>) -> Option<(Seq<char>, Seq<char>)> {
    let ls = lines(s);
    if ls.len() < 4 {
        None
    } else {
        Some((strip_prefixes(ls[2], "Address: "@), strip_prefixes(ls[3], "Private Key: "@)))
    }
}

/// Reads the address and the private key from the text that
/// `cast wallet vanity` printed.
pub fn parse_vanity_text(text: &str) -> (r: Result<WalletInfo, String>)
    ensures
        match vanity_fields(text@) {
            Some((a, k)) => r is Ok && r->Ok_0.address@ == a && r->Ok_0.private_key@ == k,
            None => r is Err && r->Err_0@ == "Unexpected output format"@,
        },
{
    let s = chars_of(text);
    let ls = split_lines(s.as_slice());
    if ls.len() < 4 {
        return Err(String::from_str("Unexpected output format"));
    }
    assert(views(ls@)[2] == ls@[2]@ && views(ls@)[3] == ls@[3]@);
    let pa = chars_of("Address: ");
    let pk = chars_of("Private Key: ");
    let address = strip_prefixes_of(ls[2].as_slice(), pa.as_slice());
    let private_key = strip_prefixes_of(ls[3].as_slice(), pk.as_slice());
    Ok(
        WalletInfo {
            address: string_of(address.as_slice()),
            private_key: string_of(private_key.as_slice()),
        },
    )
}

/// Reads the address and the private key from the bytes that
/// `cast wallet vanity` printed.
pub fn parse_vanity_output(output: Vec<u8>) -> (r: Result<WalletInfo, String>)
    ensures
        match vanity_fields(utf8_lossy(output@)) {
            Some((a, k)) => r is Ok && r->Ok_0.address@ == a && r->Ok_0.private_key@ == k,
            None => r is Err && r->Err_0@ == "Unexpected output format"@,
        },
{
    let mut text = decode_lossy(output.as_slice());
    let r = parse_vanity_text(text.as_str());
    crate::models::wipe(&mut text);
    r
}

/// The keystore names in the output of `cast wallet list`: each line,
/// trimmed, up to its first `" ("`.
pub fn parse_wallet_list(output_str: &str) -> (r: Vec<String>)
    ensures
        r@.len() == lines(output_str@).len(),
        forall|i: int|
            0 <= i < r@.len() ==> #[trigger] r@[i]@ == first_field(
                trim(lines(output_str@)[i]),
                " ("@,
            ),
{
    let s = chars_of(output_str);
    let ls = split_lines(s.as_slice());
    let sep = chars_of(" (");
    let mut names: Vec<String> = Vec::new();
    let mut i: usize = 0;
    while i < ls.len()
        invariant
            i <= ls@.len(),
            views(ls@) == lines(output_str@),
            sep@ == " ("@,
            names@.len() == i,
            forall|j: int|
                0 <= j < i ==> #[trigger] names@[j]@ == first_field(
                    trim(lines(output_str@)[j]),
                    " ("@,
                ),
        decreases ls@.len() - i,
    {
        assert(views(ls@)[i as int] == ls@[i as int]@);
        let t = trimmed(ls[i].as_slice());
        let name = match find(t.as_slice(), sep.as_slice(), 0) {
            Some(k) => {
                proof {
                    lemma_find_from(t@, sep@, 0);
                }
                copy_range(t.as_slice(), 0, k)
            },
            None => t,
        };
        proof {
            if find_from(t@, sep@, 0) is Some {
                assert(name@ =~= first_field(t@, sep@));
            }
        }
        names.push(string_of(name.as_slice()));
        i = i + 1;
    }
    names
}

} // verus!
