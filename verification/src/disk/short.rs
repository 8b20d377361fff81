//! The DOS names of files with long names, as DOSBox and Windows make them.

use vstd::prelude::*;

use crate::disk::names::{dos_name_char, ext_of, is_8_3, is_dos_char, is_short_name, stem_of};
use crate::text::{
    chars_of, decimal_text, digits, last_of, last_place, push_decimal, same, texts, upper,
    uppercase,
};

verus! {

/// The characters of a text that DOS allows in names.
pub open spec fn dos_chars(text: Seq<char>) -> Seq<char>
    decreases text.len(),
{
    if text.len() == 0 {
        Seq::empty()
    } else if is_dos_char(text.last()) {
        dos_chars(text.drop_last()).push(text.last())
    } else {
        dos_chars(text.drop_last())
    }
}

/// At most the first `n` characters.
pub open spec fn at_most(text: Seq<char>, n: int) -> Seq<char> {
    if text.len() > n {
        text.take(n)
    } else {
        text
    }
}

/// Whether a name's last dot parts it: one at the very start doesn't.
pub open spec fn parted(name: Seq<char>) -> bool {
    last_place(name, '.') matches Some(i) && i > 0
}

/// What a short name starts with, before it is cut.
pub open spec fn long_stem(name: Seq<char>) -> Seq<char> {
    let stem = dos_chars(
        if parted(name) {
            stem_of(name)
        } else {
            name
        },
    );
    if stem.len() == 0 {
        "NONAME"@
    } else {
        stem
    }
}

/// The extension of a short name.
pub open spec fn long_ext(name: Seq<char>) -> Seq<char> {
    if parted(name) {
        at_most(dos_chars(ext_of(name)), 3)
    } else {
        Seq::empty()
    }
}

/// The number of a short name, as it stands in it.
pub open spec fn number_text(n: nat) -> Seq<char> {
    seq!['~'] + decimal_text(n)
}

/// A short name: the start of the stem, a number and the extension.
pub open spec fn numbered_name(stem: Seq<char>, ext: Seq<char>, n: nat) -> Seq<char> {
    let name = at_most(stem, 8 - number_text(n).len()) + number_text(n);
    if ext.len() == 0 {
        name
    } else {
        name.push('.') + ext
    }
}

/// Whether the entry `i` of a directory keeps its name: an 8.3 name that none
/// before it has.
pub open spec fn keeps_name(names: Seq<Seq<char>>, i: int) -> bool {
    &&& is_8_3(upper(names[i]))
    &&& forall|j: int| 0 <= j < i ==> upper(#[trigger] names[j]) != upper(names[i])
}

/// What the numbers of names like that of entry `i` are counted by.
pub open spec fn count_key(names: Seq<Seq<char>>, i: int) -> Seq<char> {
    at_most(long_stem(upper(names[i])), 6)
}

/// The last number given to a name with a key, before entry `i`.
pub open spec fn count_before(
    names: Seq<Seq<char>>,
    numbers: Seq<u32>,
    i: int,
    key: Seq<char>,
) -> nat
    decreases i,
{
    if i <= 0 {
        0
    } else if !keeps_name(names, i - 1) && count_key(names, i - 1) == key {
        numbers[i - 1] as nat
    } else {
        count_before(names, numbers, i - 1, key)
    }
}

/// Whether entry `j` has a name that entry `i` can't have: because it keeps
/// it, or because it was given it before.
pub open spec fn has_name(
    names: Seq<Seq<char>>,
    result: Seq<Seq<char>>,
    i: int,
    j: int,
    name: Seq<char>,
) -> bool {
    if keeps_name(names, j) {
        upper(names[j]) == name
    } else {
        j < i && result[j] == name
    }
}

pub open spec fn taken(
    names: Seq<Seq<char>>,
    result: Seq<Seq<char>>,
    i: int,
    name: Seq<char>,
) -> bool {
    exists|j: int| 0 <= j < names.len() && #[trigger] has_name(names, result, i, j, name)
}

/// The name entry `i` would have with a number.
pub open spec fn candidate(names: Seq<Seq<char>>, i: int, n: nat) -> Seq<char> {
    numbered_name(long_stem(upper(names[i])), long_ext(upper(names[i])), n)
}

/// Whether entry `i` has its DOS name: its own, or the start of it with the
/// next number that makes a name which none has.
pub open spec fn well_named(
    names: Seq<Seq<char>>,
    result: Seq<Seq<char>>,
    numbers: Seq<u32>,
    i: int,
) -> bool {
    if keeps_name(names, i) {
        result[i] == upper(names[i])
    } else {
        let before = count_before(names, numbers, i, count_key(names, i));
        &&& before < numbers[i]
        &&& result[i] == candidate(names, i, numbers[i] as nat)
        &&& !taken(names, result, i, result[i])
        &&& forall|k: nat|
            before < k < numbers[i] ==> taken(names, result, i, #[trigger] candidate(names, i, k))
    }
}

/// Whether the first entries have their DOS names.
pub open spec fn all_named(
    names: Seq<Seq<char>>,
    result: Seq<Seq<char>>,
    numbers: Seq<u32>,
) -> bool {
    &&& result.len() == numbers.len() <= names.len()
    &&& forall|i: int| 0 <= i < result.len() ==> #[trigger] well_named(names, result, numbers, i)
}

fn push_dos_chars(out: &mut String, chars: &Vec<char>, from: usize, to: usize)
    requires
        from <= to <= chars@.len(),
    ensures
        final(out)@ == old(out)@ + dos_chars(chars@.subrange(from as int, to as int)),
{
    let ghost part = chars@.subrange(from as int, to as int);
    let mut i: usize = from;
    assert(out@ =~= old(out)@ + dos_chars(part.take(0)));
    while i < to
        invariant
            from <= i <= to <= chars@.len(),
            part == chars@.subrange(from as int, to as int),
            out@ == old(out)@ + dos_chars(part.take(i - from)),
        decreases to - i,
    {
        let ghost before = out@;
        assert(part.take(i - from + 1).drop_last() =~= part.take(i - from));
        assert(part.take(i - from + 1).last() == chars@[i as int]);
        if dos_name_char(chars[i]) {
            out.push(chars[i]);
        }
        i = i + 1;
        assert(out@ =~= old(out)@ + dos_chars(part.take(i - from)));
    }
    assert(part.take(i - from) =~= part);
}

/// The stem and the extension that a short name of an uppercase name is made
/// of.
fn long_parts(name: &String) -> (parts: (Vec<char>, Vec<char>))
    ensures
        parts.0@ == long_stem(name@),
        parts.1@ == long_ext(name@),
{
    let chars = chars_of(name.as_str());
    let n: usize = chars.len();
    assert(chars@.subrange(0, n as int) =~= chars@);
    let (stem_end, ext_start): (usize, usize) = match last_of(&chars, 0, '.') {
        Some(i) => if i > 0 {
            (i, i + 1)
        } else {
            (n, n)
        },
        None => (n, n),
    };
    let mut stem = String::new();
    push_dos_chars(&mut stem, &chars, 0, stem_end);
    let mut ext = String::new();
    push_dos_chars(&mut ext, &chars, ext_start, n);
    proof {
        let s = chars@.subrange(0, stem_end as int);
        let e = chars@.subrange(ext_start as int, n as int);
        if parted(name@) {
            assert(s =~= stem_of(name@));
            assert(e =~= ext_of(name@));
        } else {
            assert(s =~= name@);
            assert(e =~= Seq::<char>::empty());
        }
        assert(stem@ =~= dos_chars(s));
        assert(ext@ =~= dos_chars(e));
    }
    if stem.as_str().unicode_len() == 0 {
        stem = String::from_str("NONAME");
    }
    let mut ext = chars_of(ext.as_str());
    if ext.len() > 3 {
        ext.truncate(3);
    }
    assert(ext@ =~= long_ext(name@));
    (chars_of(stem.as_str()), ext)
}

fn push_chars(out: &mut String, chars: &Vec<char>, n: usize)
    requires
        n <= chars@.len(),
    ensures
        final(out)@ == old(out)@ + chars@.take(n as int),
{
    let mut i: usize = 0;
    assert(out@ =~= old(out)@ + chars@.take(0));
    while i < n
        invariant
            i <= n <= chars@.len(),
            out@ == old(out)@ + chars@.take(i as int),
        decreases n - i,
    {
        out.push(chars[i]);
        i = i + 1;
        assert(out@ =~= old(out)@ + chars@.take(i as int));
    }
}

/// Numbers below ten million have at most seven digits.
proof fn lemma_seven_digits(n: nat)
    requires
        n < 10_000_000,
    ensures
        1 <= digits(n, 10).len() <= 7,
{
    reveal_with_fuel(digits, 8);
}

/// Digits are digits: none is a tilde, nor a dot.
proof fn lemma_digits_plain(n: nat)
    ensures
        digits(n, 10).len() > 0,
        forall|i: int|
            0 <= i < digits(n, 10).len() ==> '0' <= #[trigger] digits(n, 10)[i] <= '9',
    decreases n,
{
    if n >= 10 {
        lemma_digits_plain(n / 10);
    }
}

/// A number can be read off its digits.
proof fn lemma_digits_differ(a: nat, b: nat)
    requires
        digits(a, 10) == digits(b, 10),
    ensures
        a == b,
    decreases a,
{
    lemma_digits_plain(a);
    lemma_digits_plain(b);
    let x = digits(a, 10);
    let y = digits(b, 10);
    assert(x.last() == y.last());
    if a >= 10 {
        lemma_digits_plain(a / 10);
        assert(x.len() >= 2);
        if b < 10 {
            assert(y.len() == 1);
        }
        assert(x.drop_last() =~= digits(a / 10, 10));
        assert(y.drop_last() =~= digits(b / 10, 10));
        lemma_digits_differ(a / 10, b / 10);
    } else {
        assert(x.len() == 1);
        if b >= 10 {
            lemma_digits_plain(b / 10);
            assert(y.len() >= 2);
        }
    }
}

/// Whether a name has a number: the digits behind its last tilde before any
/// dot.
spec fn has_number(name: Seq<char>, n: nat) -> bool {
    exists|end: int| #[trigger] number_ends(name, n, end)
}

spec fn number_ends(name: Seq<char>, n: nat, end: int) -> bool {
    let text = number_text(n);
    &&& text.len() <= end <= name.len()
    &&& name.subrange(end - text.len(), end) == text
    &&& end == name.len() || name[end] == '.'
    &&& forall|i: int| 0 <= i < end ==> #[trigger] name[i] != '.'
}

proof fn lemma_dos_chars_plain(text: Seq<char>)
    ensures
        forall|i: int|
            0 <= i < dos_chars(text).len() ==> is_dos_char(#[trigger] dos_chars(text)[i]),
    decreases text.len(),
{
    if text.len() > 0 {
        let before = dos_chars(text.drop_last());
        lemma_dos_chars_plain(text.drop_last());
        assert forall|i: int| 0 <= i < dos_chars(text).len() implies is_dos_char(
            #[trigger] dos_chars(text)[i],
        ) by {
            if i < before.len() {
                assert(dos_chars(text)[i] == before[i]);
            }
        }
    }
}

proof fn lemma_stem_plain(name: Seq<char>)
    ensures
        long_stem(name).len() > 0,
        forall|i: int| 0 <= i < long_stem(name).len() ==> #[trigger] long_stem(name)[i] != '.',
{
    reveal_strlit("NONAME");
    lemma_dos_chars_plain(
        if parted(name) {
            stem_of(name)
        } else {
            name
        },
    );
}

/// A numbered name has its number.
proof fn lemma_candidate_numbered(names: Seq<Seq<char>>, i: int, n: nat)
    requires
        n < 10_000_000,
    ensures
        has_number(candidate(names, i, n), n),
{
    let stem = long_stem(upper(names[i]));
    let ext = long_ext(upper(names[i]));
    let text = number_text(n);
    lemma_stem_plain(upper(names[i]));
    lemma_seven_digits(n);
    lemma_digits_plain(n);
    let start = at_most(stem, 8 - text.len());
    let name = candidate(names, i, n);
    let end = (start.len() + text.len()) as int;
    assert(name.subrange(start.len() as int, end) =~= text);
    assert forall|k: int| 0 <= k < end implies #[trigger] name[k] != '.' by {
        if k < start.len() {
            assert(name[k] == stem[k]);
        } else if k == start.len() {
            assert(name[k] == '~');
        } else {
            assert(name[k] == digits(n, 10)[k - start.len() - 1]);
        }
    }
    assert(number_ends(name, n, end));
}

/// A name has one number at most.
proof fn lemma_one_number(name: Seq<char>, a: nat, b: nat)
    requires
        has_number(name, a),
        has_number(name, b),
    ensures
        a == b,
{
    let x = choose|end: int| number_ends(name, a, end);
    let y = choose|end: int| number_ends(name, b, end);
    assert(x == y) by {
        if x < y {
            assert(name[x] == '.');
        } else if y < x {
            assert(name[y] == '.');
        }
    }
    let s = number_text(a);
    let t = number_text(b);
    lemma_digits_plain(a);
    lemma_digits_plain(b);
    let p = name.subrange(x - s.len(), x);
    let q = name.subrange(x - t.len(), x);
    assert(p[0] == '~' && q[0] == '~');
    if s.len() < t.len() {
        let k = t.len() - s.len();
        assert(q[k] == name[x - s.len()] && p[0] == name[x - s.len()]);
        assert(t[k] == digits(b, 10)[k - 1]);
    } else if t.len() < s.len() {
        let k = s.len() - t.len();
        assert(p[k] == name[x - t.len()] && q[0] == name[x - t.len()]);
        assert(s[k] == digits(a, 10)[k - 1]);
    } else {
        assert(digits(a, 10) =~= s.subrange(1, s.len() as int));
        assert(digits(b, 10) =~= t.subrange(1, t.len() as int));
        lemma_digits_differ(a, b);
    }
}

/// Whether some entry other than the later ones without names has a number.
spec fn number_used(names: Seq<Seq<char>>, result: Seq<Seq<char>>, i: int, j: int, n: nat) -> bool {
    if keeps_name(names, j) {
        has_number(upper(names[j]), n)
    } else {
        j < i && has_number(result[j], n)
    }
}

/// Whether all numbers up to one are in use.
spec fn all_used(names: Seq<Seq<char>>, result: Seq<Seq<char>>, i: int, n: nat) -> bool {
    forall|k: nat| 1 <= k <= n ==> #[trigger] some_used(names, result, i, k)
}

spec fn some_used(names: Seq<Seq<char>>, result: Seq<Seq<char>>, i: int, n: nat) -> bool {
    exists|j: int| 0 <= j < names.len() && #[trigger] number_used(names, result, i, j, n)
}

/// No more numbers are in use than there are names.
proof fn lemma_numbers_bounded(names: Seq<Seq<char>>, result: Seq<Seq<char>>, i: int, n: nat)
    requires
        all_used(names, result, i, n),
    ensures
        n <= names.len(),
{
    let who = Seq::new(
        n,
        |k: int|
            choose|j: int|
                0 <= j < names.len() && #[trigger] number_used(
                    names,
                    result,
                    i,
                    j,
                    (k + 1) as nat,
                ),
    );
    assert forall|k: int| 0 <= k < n implies 0 <= #[trigger] who[k] < names.len() && number_used(
        names,
        result,
        i,
        who[k],
        (k + 1) as nat,
    ) by {
        assert(some_used(names, result, i, (k + 1) as nat));
    }
    assert forall|a: int, b: int| 0 <= a < who.len() && 0 <= b < who.len() && a != b implies who[a]
        != who[b] by {
        if who[a] == who[b] {
            let j = who[a];
            assert(number_used(names, result, i, j, (a + 1) as nat));
            assert(number_used(names, result, i, j, (b + 1) as nat));
            if keeps_name(names, j) {
                lemma_one_number(upper(names[j]), (a + 1) as nat, (b + 1) as nat);
            } else {
                lemma_one_number(result[j], (a + 1) as nat, (b + 1) as nat);
            }
        }
    }
    assert(who.no_duplicates());
    who.unique_seq_to_set();
    let all = vstd::set_lib::set_int_range(0, names.len() as int);
    vstd::set_lib::lemma_int_range(0, names.len() as int);
    assert(who.to_set().subset_of(all)) by {
        assert forall|x: int| who.to_set().contains(x) implies all.contains(x) by {
            let k = choose|k: int| 0 <= k < who.len() && who[k] == x;
            assert(0 <= who[k] < names.len());
        }
    }
    vstd::set_lib::lemma_len_subset(who.to_set(), all);
}

/// The numbers given before an entry don't depend on the ones given after.
proof fn lemma_count_stable(
    names: Seq<Seq<char>>,
    numbers: Seq<u32>,
    n: u32,
    i: int,
    key: Seq<char>,
)
    requires
        i <= numbers.len(),
    ensures
        count_before(names, numbers.push(n), i, key) == count_before(names, numbers, i, key),
    decreases i,
{
    if i > 0 {
        lemma_count_stable(names, numbers, n, i - 1, key);
    }
}

/// Nor do the names taken.
proof fn lemma_taken_stable(
    names: Seq<Seq<char>>,
    result: Seq<Seq<char>>,
    last: Seq<char>,
    i: int,
    name: Seq<char>,
)
    requires
        i <= result.len(),
    ensures
        taken(names, result.push(last), i, name) == taken(names, result, i, name),
{
    if taken(names, result, i, name) {
        let j = choose|j: int|
            0 <= j < names.len() && #[trigger] has_name(names, result, i, j, name);
        assert(has_name(names, result.push(last), i, j, name));
    }
    if taken(names, result.push(last), i, name) {
        let j = choose|j: int|
            0 <= j < names.len() && #[trigger] has_name(names, result.push(last), i, j, name);
        assert(has_name(names, result, i, j, name));
    }
}

/// One entry more has its name.
proof fn lemma_one_more(
    names: Seq<Seq<char>>,
    result: Seq<Seq<char>>,
    numbers: Seq<u32>,
    last: Seq<char>,
    n: u32,
)
    requires
        all_named(names, result, numbers),
        result.len() < names.len(),
        if keeps_name(names, result.len() as int) {
            last == upper(names[result.len() as int])
        } else {
            let i = result.len() as int;
            let before = count_before(names, numbers, i, count_key(names, i));
            &&& before < n
            &&& last == candidate(names, i, n as nat)
            &&& !taken(names, result, i, last)
            &&& forall|k: nat|
                before < k < n ==> taken(names, result, i, #[trigger] candidate(names, i, k))
        },
    ensures
        all_named(names, result.push(last), numbers.push(n)),
{
    let more = result.push(last);
    let counts = numbers.push(n);
    assert forall|i: int| 0 <= i < more.len() implies #[trigger] well_named(
        names,
        more,
        counts,
        i,
    ) by {
        lemma_count_stable(names, numbers, n, i, count_key(names, i));
        if i < result.len() {
            assert(well_named(names, result, numbers, i));
        }
        if !keeps_name(names, i) {
            lemma_taken_stable(names, result, last, i, more[i]);
            let before = count_before(names, counts, i, count_key(names, i));
            assert forall|k: nat| before < k < counts[i] implies taken(
                names,
                more,
                i,
                #[trigger] candidate(names, i, k),
            ) by {
                lemma_taken_stable(names, result, last, i, candidate(names, i, k));
            }
        }
    }
}

/// A number in use stays in use.
proof fn lemma_used_stable(
    names: Seq<Seq<char>>,
    result: Seq<Seq<char>>,
    last: Seq<char>,
    n: nat,
)
    requires
        some_used(names, result, result.len() as int, n),
    ensures
        some_used(names, result.push(last), result.len() as int + 1, n),
{
    let i = result.len() as int;
    let j = choose|j: int| 0 <= j < names.len() && #[trigger] number_used(names, result, i, j, n);
    assert(number_used(names, result.push(last), i + 1, j, n));
}

/// A number whose name is taken is in use.
proof fn lemma_taken_used(
    names: Seq<Seq<char>>,
    result: Seq<Seq<char>>,
    i: int,
    entry: int,
    n: nat,
)
    requires
        n < 10_000_000,
        taken(names, result, i, candidate(names, entry, n)),
    ensures
        some_used(names, result, i, n),
{
    lemma_candidate_numbered(names, entry, n);
    let name = candidate(names, entry, n);
    let j = choose|j: int| 0 <= j < names.len() && #[trigger] has_name(names, result, i, j, name);
    assert(number_used(names, result, i, j, n));
}

/// Whether the names have the numbers up to each count.
spec fn counts_used(names: Seq<Seq<char>>, result: Seq<Seq<char>>, numbers: Seq<u32>) -> bool {
    forall|key: Seq<char>|
        all_used(
            names,
            result,
            result.len() as int,
            #[trigger] count_before(names, numbers, result.len() as int, key),
        )
}

proof fn lemma_counts_used(
    names: Seq<Seq<char>>,
    result: Seq<Seq<char>>,
    numbers: Seq<u32>,
    last: Seq<char>,
    n: u32,
)
    requires
        result.len() == numbers.len() < names.len(),
        counts_used(names, result, numbers),
        !keeps_name(names, result.len() as int) ==> {
            &&& n < 10_000_000
            &&& last == candidate(names, result.len() as int, n as nat)
            &&& n > 0
            &&& all_used(names, result, result.len() as int, (n - 1) as nat)
        },
    ensures
        counts_used(names, result.push(last), numbers.push(n)),
{
    let i = result.len() as int;
    let more = result.push(last);
    let counts = numbers.push(n);
    assert forall|key: Seq<char>|
        all_used(names, more, i + 1, #[trigger] count_before(names, counts, i + 1, key)) by {
        let c = count_before(names, counts, i + 1, key);
        lemma_count_stable(names, numbers, n, i, key);
        assert forall|k: nat| 1 <= k <= c implies #[trigger] some_used(names, more, i + 1, k) by {
            if !keeps_name(names, i) && count_key(names, i) == key {
                assert(c == n);
                if k == n {
                    lemma_candidate_numbered(names, i, n as nat);
                    assert(number_used(names, more, i + 1, i, k));
                } else {
                    assert(some_used(names, result, i, k));
                    lemma_used_stable(names, result, last, k);
                }
            } else {
                assert(c == count_before(names, numbers, i, key));
                assert(all_used(names, result, i, count_before(names, numbers, i, key)));
                assert(some_used(names, result, i, k));
                lemma_used_stable(names, result, last, k);
            }
        }
    }
}

fn name_with_number(stem: &Vec<char>, ext: &Vec<char>, n: u32) -> (name: String)
    requires
        n < 10_000_000,
    ensures
        name@ == numbered_name(stem@, ext@, n as nat),
{
    let mut number = String::new();
    number.push('~');
    push_decimal(&mut number, n as u64, 0, ' ');
    proof {
        assert(number@ =~= number_text(n as nat));
        lemma_seven_digits(n as nat);
    }
    let len: usize = number.as_str().unicode_len();
    let keep: usize = if stem.len() < 8 - len {
        stem.len()
    } else {
        8 - len
    };
    let mut name = String::new();
    push_chars(&mut name, stem, keep);
    name.append(number.as_str());
    assert(name@ =~= at_most(stem@, 8 - number_text(n as nat).len()) + number_text(n as nat));
    if ext.len() > 0 {
        name.push('.');
        push_chars(&mut name, ext, ext.len());
        assert(ext@.take(ext@.len() as int) =~= ext@);
    }
    assert(name@ =~= numbered_name(stem@, ext@, n as nat));
    name
}

/// Which of the entries keep their names.
fn kept_names(upper_names: &Vec<String>, Ghost(names): Ghost<Seq<Seq<char>>>) -> (kept: Vec<bool>)
    requires
        names.len() == upper_names@.len(),
        forall|i: int| 0 <= i < names.len() ==> upper(#[trigger] names[i]) == upper_names@[i]@,
    ensures
        kept@.len() == names.len(),
        forall|i: int| 0 <= i < names.len() ==> #[trigger] kept@[i] == keeps_name(names, i),
{
    let mut kept: Vec<bool> = Vec::new();
    let mut i: usize = 0;
    while i < upper_names.len()
        invariant
            i <= upper_names@.len() == names.len(),
            forall|j: int| 0 <= j < names.len() ==> upper(#[trigger] names[j]) == upper_names@[j]@,
            kept@.len() == i,
            forall|j: int| 0 <= j < i ==> #[trigger] kept@[j] == keeps_name(names, j),
        decreases upper_names.len() - i,
    {
        let chars = chars_of(upper_names[i].as_str());
        let mut keeps = is_short_name(&chars);
        let mut j: usize = 0;
        while keeps && j < i
            invariant
                i < upper_names@.len() == names.len(),
                forall|j: int|
                    0 <= j < names.len() ==> upper(#[trigger] names[j]) == upper_names@[j]@,
                j <= i,
                keeps ==> is_8_3(upper(names[i as int])) && forall|k: int|
                    0 <= k < j ==> upper(#[trigger] names[k]) != upper(names[i as int]),
                !keeps ==> !keeps_name(names, i as int),
            decreases i - j,
        {
            assert(upper(names[j as int]) == upper_names@[j as int]@);
            assert(upper(names[i as int]) == upper_names@[i as int]@);
            if same(upper_names[j].as_str(), upper_names[i].as_str()) {
                keeps = false;
            }
            j = j + 1;
        }
        kept.push(keeps);
        i = i + 1;
    }
    kept
}

/// Whether a name is taken.
fn name_taken(
    upper_names: &Vec<String>,
    kept: &Vec<bool>,
    result: &Vec<String>,
    name: &String,
    Ghost(names): Ghost<Seq<Seq<char>>>,
) -> (yes: bool)
    requires
        names.len() == upper_names@.len() == kept@.len(),
        result@.len() <= names.len(),
        forall|i: int| 0 <= i < names.len() ==> upper(#[trigger] names[i]) == upper_names@[i]@,
        forall|i: int| 0 <= i < names.len() ==> #[trigger] kept@[i] == keeps_name(names, i),
    ensures
        yes == taken(names, texts(result@), result@.len() as int, name@),
{
    let mut j: usize = 0;
    while j < upper_names.len()
        invariant
            j <= names.len() == upper_names@.len() == kept@.len(),
            result@.len() <= names.len(),
            forall|i: int| 0 <= i < names.len() ==> upper(#[trigger] names[i]) == upper_names@[i]@,
            forall|i: int| 0 <= i < names.len() ==> #[trigger] kept@[i] == keeps_name(names, i),
            forall|k: int|
                0 <= k < j ==> !(#[trigger] has_name(
                    names,
                    texts(result@),
                    result@.len() as int,
                    k,
                    name@,
                )),
        decreases upper_names.len() - j,
    {
        assert(upper(names[j as int]) == upper_names@[j as int]@);
        assert(kept@[j as int] == keeps_name(names, j as int));
        let hit = if kept[j] {
            same(upper_names[j].as_str(), name.as_str())
        } else {
            j < result.len() && same(result[j].as_str(), name.as_str())
        };
        assert(hit == has_name(names, texts(result@), result@.len() as int, j as int, name@));
        if hit {
            return true;
        }
        j = j + 1;
    }
    false
}

/// The last number given to a name like that of the next entry.
fn last_number(
    keys: &Vec<String>,
    kept: &Vec<bool>,
    numbers: &Vec<u32>,
    Ghost(names): Ghost<Seq<Seq<char>>>,
) -> (n: u32)
    requires
        names.len() == keys@.len() == kept@.len(),
        numbers@.len() < names.len(),
        forall|i: int| 0 <= i < names.len() ==> #[trigger] keys@[i]@ == count_key(names, i),
        forall|i: int| 0 <= i < names.len() ==> #[trigger] kept@[i] == keeps_name(names, i),
    ensures
        n == count_before(
            names,
            numbers@,
            numbers@.len() as int,
            count_key(names, numbers@.len() as int),
        ),
{
    let i: usize = numbers.len();
    let ghost key = count_key(names, i as int);
    assert(keys@[i as int]@ == key);
    let mut j: usize = i;
    while j > 0
        invariant
            j <= i == numbers@.len() < names.len() == keys@.len() == kept@.len(),
            key == count_key(names, i as int),
            keys@[i as int]@ == key,
            forall|i: int| 0 <= i < names.len() ==> #[trigger] keys@[i]@ == count_key(names, i),
            forall|i: int| 0 <= i < names.len() ==> #[trigger] kept@[i] == keeps_name(names, i),
            count_before(names, numbers@, i as int, key) == count_before(
                names,
                numbers@,
                j as int,
                key,
            ),
        decreases j,
    {
        assert(keys@[j - 1]@ == count_key(names, j - 1));
        assert(kept@[j - 1] == keeps_name(names, j - 1));
        if !kept[j - 1] && same(keys[j - 1].as_str(), keys[i].as_str()) {
            return numbers[j - 1];
        }
        j = j - 1;
    }
    0
}

/// The DOS names of the entries of a directory, given in the order that
/// numbers them, as DOSBox and Windows make them: names that are 8.3
/// already are only uppercased; the others lose their spaces and other
/// characters DOS doesn't allow, and become the start of the name with a
/// number, `~N`, counted per prefix: "Day Of The Tentacle.BIN" and ".cue"
/// are DAYOFT~1.BIN and DAYOFT~2.CUE.
pub fn short_names(names: &Vec<String>) -> (result: Vec<String>)
    requires
        names@.len() < 9_999_999,
    ensures
        result@.len() == names@.len(),
        exists|numbers: Seq<u32>|
            #[trigger] all_named(texts(names@), texts(result@), numbers),
{
    let ghost given = texts(names@);
    let mut upper_names: Vec<String> = Vec::new();
    let mut stems: Vec<Vec<char>> = Vec::new();
    let mut exts: Vec<Vec<char>> = Vec::new();
    let mut keys: Vec<String> = Vec::new();
    let mut i: usize = 0;
    while i < names.len()
        invariant
            i <= names@.len(),
            given == texts(names@),
            upper_names@.len() == i,
            stems@.len() == i,
            exts@.len() == i,
            keys@.len() == i,
            forall|j: int| 0 <= j < i ==> #[trigger] upper_names@[j]@ == upper(given[j]),
            forall|j: int| 0 <= j < i ==> (#[trigger] stems@[j])@ == long_stem(upper(given[j])),
            forall|j: int| 0 <= j < i ==> (#[trigger] exts@[j])@ == long_ext(upper(given[j])),
            forall|j: int| 0 <= j < i ==> #[trigger] keys@[j]@ == count_key(given, j),
        decreases names.len() - i,
    {
        let name = uppercase(names[i].as_str());
        let (stem, ext): (Vec<char>, Vec<char>) = long_parts(&name);
        let mut key = String::new();
        let n: usize = if stem.len() > 6 {
            6
        } else {
            stem.len()
        };
        push_chars(&mut key, &stem, n);
        proof {
            assert(name@ == upper(given[i as int]));
            assert(key@ =~= count_key(given, i as int));
        }
        upper_names.push(name);
        stems.push(stem);
        exts.push(ext);
        keys.push(key);
        i = i + 1;
    }
    proof {
        assert forall|j: int| 0 <= j < given.len() implies upper(#[trigger] given[j])
            == upper_names@[j]@ by {
            assert(upper_names@[j]@ == upper(given[j]));
        }
    }
    let kept = kept_names(&upper_names, Ghost(given));
    let mut result: Vec<String> = Vec::new();
    let mut numbers: Vec<u32> = Vec::new();
    let mut i: usize = 0;
    assert(texts(result@) =~= Seq::<Seq<char>>::empty());
    while i < names.len()
        invariant
            i <= names@.len() < 9_999_999,
            given == texts(names@),
            upper_names@.len() == names@.len(),
            stems@.len() == names@.len(),
            exts@.len() == names@.len(),
            keys@.len() == names@.len(),
            kept@.len() == names@.len(),
            forall|j: int| 0 <= j < given.len() ==> upper(#[trigger] given[j]) == upper_names@[j]@,
            forall|j: int|
                0 <= j < given.len() ==> (#[trigger] stems@[j])@ == long_stem(upper(given[j])),
            forall|j: int|
                0 <= j < given.len() ==> (#[trigger] exts@[j])@ == long_ext(upper(given[j])),
            forall|j: int| 0 <= j < given.len() ==> #[trigger] keys@[j]@ == count_key(given, j),
            forall|j: int| 0 <= j < given.len() ==> #[trigger] kept@[j] == keeps_name(given, j),
            result@.len() == i,
            numbers@.len() == i,
            all_named(given, texts(result@), numbers@),
            counts_used(given, texts(result@), numbers@),
        decreases names.len() - i,
    {
        let ghost before = texts(result@);
        let ghost counts = numbers@;
        assert(kept@[i as int] == keeps_name(given, i as int));
        assert(upper(given[i as int]) == upper_names@[i as int]@);
        let (name, n): (String, u32) = if kept[i] {
            (upper_names[i].clone(), 0)
        } else {
            next_name(
                &upper_names,
                &kept,
                &keys,
                &stems[i],
                &exts[i],
                &result,
                &numbers,
                Ghost(given),
            )
        };
        proof {
            assert(stems@[i as int]@ == long_stem(upper(given[i as int])));
            assert(exts@[i as int]@ == long_ext(upper(given[i as int])));
            lemma_one_more(given, before, counts, name@, n);
            lemma_counts_used(given, before, counts, name@, n);
        }
        let ghost text = name@;
        result.push(name);
        numbers.push(n);
        assert(texts(result@) =~= before.push(text));
        i = i + 1;
    }
    result
}

/// The name of the next entry, which can't keep its own, and its number.
fn next_name(
    upper_names: &Vec<String>,
    kept: &Vec<bool>,
    keys: &Vec<String>,
    stem: &Vec<char>,
    ext: &Vec<char>,
    result: &Vec<String>,
    numbers: &Vec<u32>,
    Ghost(names): Ghost<Seq<Seq<char>>>,
) -> (named: (String, u32))
    requires
        names.len() == upper_names@.len() == kept@.len() == keys@.len(),
        names.len() < 9_999_999,
        result@.len() == numbers@.len() < names.len(),
        forall|i: int| 0 <= i < names.len() ==> upper(#[trigger] names[i]) == upper_names@[i]@,
        forall|i: int| 0 <= i < names.len() ==> #[trigger] keys@[i]@ == count_key(names, i),
        forall|i: int| 0 <= i < names.len() ==> #[trigger] kept@[i] == keeps_name(names, i),
        stem@ == long_stem(upper(names[result@.len() as int])),
        ext@ == long_ext(upper(names[result@.len() as int])),
        counts_used(names, texts(result@), numbers@),
    ensures
        ({
            let i = result@.len() as int;
            let before = count_before(names, numbers@, i, count_key(names, i));
            let (name, n) = named;
            &&& before < n < 10_000_000
            &&& name@ == candidate(names, i, n as nat)
            &&& !taken(names, texts(result@), i, name@)
            &&& forall|k: nat|
                before < k < n ==> taken(
                    names,
                    texts(result@),
                    i,
                    #[trigger] candidate(names, i, k),
                )
            &&& all_used(names, texts(result@), i, (n - 1) as nat)
        }),
{
    let ghost i = result@.len() as int;
    let ghost given = texts(result@);
    let start: u32 = last_number(keys, kept, numbers, Ghost(names));
    let mut n: u32 = start;
    proof {
        assert(given.len() == i);
        assert(all_used(names, given, i, count_before(names, numbers@, i, count_key(names, i))));
    }
    loop
        invariant
            names.len() == upper_names@.len() == kept@.len() == keys@.len(),
            names.len() < 9_999_999,
            result@.len() == numbers@.len() < names.len(),
            forall|i: int| 0 <= i < names.len() ==> upper(#[trigger] names[i]) == upper_names@[i]@,
            forall|i: int| 0 <= i < names.len() ==> #[trigger] kept@[i] == keeps_name(names, i),
            i == result@.len(),
            given == texts(result@),
            stem@ == long_stem(upper(names[i])),
            ext@ == long_ext(upper(names[i])),
            start == count_before(names, numbers@, i, count_key(names, i)),
            start <= n,
            all_used(names, given, i, n as nat),
            forall|k: nat|
                start < k <= n ==> taken(names, given, i, #[trigger] candidate(names, i, k)),
        decreases names.len() - n,
    {
        proof {
            lemma_numbers_bounded(names, given, i, n as nat);
        }
        n = n + 1;
        let name = name_with_number(stem, ext, n);
        if !name_taken(upper_names, kept, result, &name, Ghost(names)) {
            return (name, n);
        }
        proof {
            lemma_taken_used(names, given, i, i, n as nat);
            assert forall|k: nat| 1 <= k <= n implies #[trigger] some_used(
                names,
                given,
                i,
                k,
            ) by {
                if k < n {
                    assert(all_used(names, given, i, (n - 1) as nat));
                }
            }
            lemma_numbers_bounded(names, given, i, n as nat);
        }
    }
}

/// The DOS names of a directory's entries differ from each other.
pub proof fn law_short_names_differ(
    names: Seq<Seq<char>>,
    result: Seq<Seq<char>>,
    numbers: Seq<u32>,
    i: int,
    j: int,
)
    requires
        all_named(names, result, numbers),
        result.len() == names.len(),
        0 <= i < j < names.len(),
    ensures
        result[i] != result[j],
{
    assert(well_named(names, result, numbers, i));
    assert(well_named(names, result, numbers, j));
    if result[i] == result[j] {
        if !keeps_name(names, j) {
            assert(has_name(names, result, j, i, result[j]));
        } else if !keeps_name(names, i) {
            assert(has_name(names, result, i, j, result[i]));
        } else {
            assert(upper(names[i]) != upper(names[j]));
        }
    }
}

/// A name of an entry that is 8.3 already only changes its case, unless one
/// before it is the same.
pub proof fn law_short_names_stay(
    names: Seq<Seq<char>>,
    result: Seq<Seq<char>>,
    numbers: Seq<u32>,
    i: int,
)
    requires
        all_named(names, result, numbers),
        0 <= i < result.len(),
        is_8_3(upper(names[i])),
        forall|j: int| 0 <= j < i ==> upper(#[trigger] names[j]) != upper(names[i]),
    ensures
        result[i] == upper(names[i]),
{
    assert(well_named(names, result, numbers, i));
}

/// Whether two namings agree on the first entries.
spec fn agree(
    names: Seq<Seq<char>>,
    a: Seq<Seq<char>>,
    b: Seq<Seq<char>>,
    m: Seq<u32>,
    n: Seq<u32>,
    to: int,
) -> bool {
    forall|j: int|
        0 <= j < to ==> (#[trigger] a[j]) == b[j] && (!keeps_name(names, j) ==> m[j] == n[j])
}

proof fn lemma_same_count(
    names: Seq<Seq<char>>,
    a: Seq<Seq<char>>,
    b: Seq<Seq<char>>,
    m: Seq<u32>,
    n: Seq<u32>,
    i: int,
    key: Seq<char>,
)
    requires
        agree(names, a, b, m, n, i),
    ensures
        count_before(names, m, i, key) == count_before(names, n, i, key),
    decreases i,
{
    if i > 0 {
        assert(a[i - 1] == b[i - 1]);
        lemma_same_count(names, a, b, m, n, i - 1, key);
    }
}

proof fn lemma_same_taken(
    names: Seq<Seq<char>>,
    a: Seq<Seq<char>>,
    b: Seq<Seq<char>>,
    m: Seq<u32>,
    n: Seq<u32>,
    i: int,
    name: Seq<char>,
)
    requires
        0 <= i,
        agree(names, a, b, m, n, i),
        taken(names, a, i, name),
    ensures
        taken(names, b, i, name),
{
    let j = choose|j: int| 0 <= j < names.len() && #[trigger] has_name(names, a, i, j, name);
    if !keeps_name(names, j) {
        assert(a[j] == b[j]);
    }
    assert(has_name(names, b, i, j, name));
}

proof fn lemma_agree(
    names: Seq<Seq<char>>,
    a: Seq<Seq<char>>,
    b: Seq<Seq<char>>,
    m: Seq<u32>,
    n: Seq<u32>,
    to: nat,
)
    requires
        all_named(names, a, m),
        all_named(names, b, n),
        to <= a.len() == b.len(),
    ensures
        agree(names, a, b, m, n, to as int),
    decreases to,
{
    if to > 0 {
        let i = to - 1;
        lemma_agree(names, a, b, m, n, i as nat);
        assert(well_named(names, a, m, i));
        assert(well_named(names, b, n, i));
        if !keeps_name(names, i) {
            lemma_same_count(names, a, b, m, n, i, count_key(names, i));
            if m[i] < n[i] {
                assert(taken(names, b, i, candidate(names, i, m[i] as nat)));
                lemma_same_taken(names, b, a, n, m, i, a[i]);
            } else if n[i] < m[i] {
                assert(taken(names, a, i, candidate(names, i, n[i] as nat)));
                lemma_same_taken(names, a, b, m, n, i, b[i]);
            }
        }
    }
}

/// The names in a directory determine its short names.
pub proof fn law_short_names_are_determined(
    names: Seq<Seq<char>>,
    a: Seq<Seq<char>>,
    b: Seq<Seq<char>>,
    m: Seq<u32>,
    n: Seq<u32>,
)
    requires
        all_named(names, a, m),
        all_named(names, b, n),
        a.len() == b.len(),
    ensures
        a == b,
{
    lemma_agree(names, a, b, m, n, a.len());
    assert(a =~= b);
}

} // verus!
