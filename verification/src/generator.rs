//! The password generator: category filtering, guaranteed per-source
//! seeding, fill from the combined charset, unbiased shuffle, and the
//! post-shuffle repair rule that keeps a symbol out of the first position
//! whenever any non-symbol character is present.

use vstd::prelude::*;
use vstd::seq_lib::group_filter_ensures;
use vstd::seq_lib::group_to_multiset_ensures;
use vstd::string::StrSliceExecFns;

use crate::charsets::category_chars;
use crate::charsets::category_count;
use crate::charsets::default_charsets;
use crate::charsets::is_symbol;
use crate::config::PasswordConfig;
use crate::rng::new_seeder;
use crate::rng::rng_index;
use crate::rng::seeded_rng;
use crate::rng::shuffle_chars;

verus! {

/// The characters of `cat` that remain after removing every character
/// present in `excl`, in their original order.
pub open spec fn filtered_pool(cat: Seq<char>, excl: Seq<char>) -> Seq<char> {
    cat.filter(|c: char| !excl.contains(c))
}

/// The filtered pool of category `k` under configuration `c`.
pub open spec fn pool(c: PasswordConfig, k: int) -> Seq<char> {
    filtered_pool(category_chars(k), c.excluded@)
}

/// Category `k` contributes a source: it is enabled and its filtered pool
/// is non-empty.
pub open spec fn category_active(c: PasswordConfig, k: int) -> bool {
    c.category_enabled(k) && pool(c, k).len() > 0
}

/// The active categories' filtered pools among the first `k` categories,
/// in the fixed category order.
pub open spec fn category_sources_upto(c: PasswordConfig, k: int) -> Seq<Seq<char>>
    decreases k,
{
    if k <= 0 {
        Seq::empty()
    } else if category_active(c, k - 1) {
        category_sources_upto(c, k - 1).push(pool(c, k - 1))
    } else {
        category_sources_upto(c, k - 1)
    }
}

/// The source pools the generator seeds from, cut off after the first `k`
/// categories: the raw included literal first when non-empty, then every
/// active category's filtered pool in order.
pub open spec fn sources_upto(c: PasswordConfig, k: int) -> Seq<Seq<char>> {
    if c.included@.len() > 0 {
        seq![c.included@] + category_sources_upto(c, k)
    } else {
        category_sources_upto(c, k)
    }
}

/// Every source pool the generator seeds from, in order.
pub open spec fn sources(c: PasswordConfig) -> Seq<Seq<char>> {
    sources_upto(c, category_count())
}

/// The concatenation of a sequence of pools, in order.
pub open spec fn concat_all(ss: Seq<Seq<char>>) -> Seq<char>
    decreases ss.len(),
{
    if ss.len() == 0 {
        Seq::empty()
    } else {
        concat_all(ss.drop_last()) + ss.last()
    }
}

/// The combined charset that the fill phase draws from: the concatenation
/// of every source pool.
pub open spec fn charset(c: PasswordConfig) -> Seq<char> {
    concat_all(sources(c))
}

/// How many characters the generator emits: the target length, or the
/// number of sources when seeding alone already overshoots it.
pub open spec fn generated_length(c: PasswordConfig) -> int {
    if sources(c).len() > c.length {
        sources(c).len() as int
    } else {
        c.length as int
    }
}

/// Every character of `out` comes from the combined charset; with an empty
/// charset every character is the fallback filler '~'.
pub open spec fn chars_from_charset(c: PasswordConfig, out: Seq<char>) -> bool {
    forall|i: int|
        0 <= i < out.len() ==> if charset(c).len() == 0 {
            out[i] == '~'
        } else {
            charset(c).contains(#[trigger] out[i])
        }
}

/// Every source pool has at least one representative among the characters
/// of `out`.
pub open spec fn all_sources_represented(c: PasswordConfig, out: Seq<char>) -> bool {
    forall|k: int|
        0 <= k < sources(c).len() ==> exists|ch: char|
            (#[trigger] sources(c)[k]).contains(ch) && out.contains(ch)
}

/// When any character of `out` is not a symbol, the first one is not a
/// symbol either.
pub open spec fn no_leading_symbol(out: Seq<char>) -> bool {
    (out.len() > 0 && exists|i: int| 0 <= i < out.len() && !is_symbol(#[trigger] out[i]))
        ==> !is_symbol(out[0])
}

/// The characters of `s`, in order.
fn str_chars(s: &str) -> (r: Vec<char>)
    ensures
        r@ == s@,
{
    let n: usize = s.unicode_len();
    let mut r: Vec<char> = Vec::new();
    let mut i: usize = 0;
    while i < n
        invariant
            i <= n,
            n == s@.len(),
            r@ == s@.take(i as int),
        decreases n - i,
    {
        let c = s.get_char(i);
        r.push(c);
        proof {
            assert(s@.take(i as int).push(s@[i as int]) =~= s@.take(i as int + 1));
        }
        i = i + 1;
    }
    proof {
        assert(s@.take(n as int) =~= s@);
    }
    r
}

/// Whether `v` holds `ch`.
fn contains_char(v: &Vec<char>, ch: char) -> (r: bool)
    ensures
        r == v@.contains(ch),
{
    let mut i: usize = 0;
    while i < v.len()
        invariant
            i <= v@.len(),
            forall|j: int| 0 <= j < i ==> v@[j] != ch,
        decreases v@.len() - i,
    {
        if v[i] == ch {
            return true;
        }
        i = i + 1;
    }
    false
}

/// The characters of `src` that `excl` does not hold, in order.
fn filter_chars(src: &Vec<char>, excl: &Vec<char>) -> (r: Vec<char>)
    ensures
        r@ == filtered_pool(src@, excl@),
{
    let mut r: Vec<char> = Vec::new();
    let mut i: usize = 0;
    proof {
        reveal(Seq::filter);
        assert(src@.take(0) =~= Seq::<char>::empty());
        assert(r@ =~= filtered_pool(src@.take(0), excl@));
    }
    while i < src.len()
        invariant
            i <= src@.len(),
            r@ == filtered_pool(src@.take(i as int), excl@),
        decreases src@.len() - i,
    {
        let c = src[i];
        if !contains_char(excl, c) {
            r.push(c);
        }
        proof {
            lemma_filtered_pool_take_step(src@, excl@, i as int);
        }
        i = i + 1;
    }
    proof {
        assert(src@.take(src@.len() as int) =~= src@);
    }
    r
}

/// Taking one more character of `s` extends the filtered pool by that
/// character exactly when it is not excluded.
proof fn lemma_filtered_pool_take_step(s: Seq<char>, excl: Seq<char>, i: int)
    requires
        0 <= i < s.len(),
    ensures
        filtered_pool(s.take(i + 1), excl) == if excl.contains(s[i]) {
            filtered_pool(s.take(i), excl)
        } else {
            filtered_pool(s.take(i), excl).push(s[i])
        },
{
    reveal(Seq::filter);
    assert(s.take(i + 1).drop_last() =~= s.take(i));
    assert(s.take(i + 1).last() == s[i]);
}

/// Appends every character of `src` to `dst`.
fn push_all(dst: &mut Vec<char>, src: &Vec<char>)
    ensures
        final(dst)@ == old(dst)@ + src@,
{
    let mut i: usize = 0;
    proof {
        assert(dst@ =~= old(dst)@ + src@.take(0));
    }
    while i < src.len()
        invariant
            i <= src@.len(),
            dst@ == old(dst)@ + src@.take(i as int),
        decreases src@.len() - i,
    {
        dst.push(src[i]);
        proof {
            assert((old(dst)@ + src@.take(i as int)).push(src@[i as int]) =~= old(dst)@ + src@.take(
                i as int + 1,
            ));
        }
        i = i + 1;
    }
    proof {
        assert(old(dst)@ + src@.take(src@.len() as int) =~= old(dst)@ + src@);
    }
}

/// Every character of every pool appears in the concatenation of the pools.
pub proof fn lemma_concat_all_contains(ss: Seq<Seq<char>>, j: int, ch: char)
    requires
        0 <= j < ss.len(),
        ss[j].contains(ch),
    ensures
        concat_all(ss).contains(ch),
    decreases ss.len(),
{
    if j == ss.len() - 1 {
        let i = choose|i: int| 0 <= i < ss[j].len() && ss[j][i] == ch;
        assert(concat_all(ss)[concat_all(ss.drop_last()).len() + i] == ch);
    } else {
        assert(ss.drop_last()[j] == ss[j]);
        lemma_concat_all_contains(ss.drop_last(), j, ch);
        let i = choose|i: int|
            0 <= i < concat_all(ss.drop_last()).len() && concat_all(ss.drop_last())[i] == ch;
        assert(concat_all(ss)[i] == ch);
    }
}

/// Every character of the concatenation of the pools comes from one of the
/// pools.
pub proof fn lemma_concat_all_membership(ss: Seq<Seq<char>>, ch: char)
    requires
        concat_all(ss).contains(ch),
    ensures
        exists|j: int| 0 <= j < ss.len() && (#[trigger] ss[j]).contains(ch),
    decreases ss.len(),
{
    if ss.len() == 0 {
        assert(false);
    } else {
        let i = choose|i: int| 0 <= i < concat_all(ss).len() && concat_all(ss)[i] == ch;
        let front = concat_all(ss.drop_last());
        if i < front.len() {
            assert(front[i] == ch);
            lemma_concat_all_membership(ss.drop_last(), ch);
            let j = choose|j: int| 0 <= j < ss.drop_last().len() && (#[trigger] ss.drop_last()[j]).contains(ch);
            assert((ss[j]).contains(ch));
        } else {
            assert(ss.last()[i - front.len()] == ch);
            assert((ss[ss.len() - 1]).contains(ch));
        }
    }
}

/// Post-shuffle repair: when the first character is a symbol and some later
/// character is not, swap the first non-symbol character into position 0; a
/// buffer of symbols alone is left as it is. The result is the old buffer,
/// or the old buffer with one transposition against position 0.
pub fn repair_leading_symbol(v: &mut Vec<char>)
    ensures
        final(v)@.len() == old(v)@.len(),
        forall|ch: char| final(v)@.contains(ch) == old(v)@.contains(ch),
        old(v)@.len() == 0 ==> final(v)@ == old(v)@,
        old(v)@.len() > 0 ==> exists|j: int|
            0 <= j < old(v)@.len() && final(v)@ == old(v)@.update(0, old(v)@[j]).update(
                j,
                old(v)@[0],
            ),
        (old(v)@.len() > 0 && exists|i: int|
            0 <= i < old(v)@.len() && !is_symbol(#[trigger] old(v)@[i])) ==> !is_symbol(
            final(v)@[0],
        ),
{
    if v.len() == 0 {
        return ;
    }
    if !is_symbol_char(v[0]) {
        proof {
            assert(v@ =~= v@.update(0, v@[0]).update(0, v@[0]));
        }
        return ;
    }
    let mut j: usize = 1;
    while j < v.len()
        invariant
            1 <= j <= v@.len(),
            v@ == old(v)@,
            forall|i: int| 0 <= i < j ==> is_symbol(#[trigger] v@[i]),
        decreases v@.len() - j,
    {
        if !is_symbol_char(v[j]) {
            let ghost pre = v@;
            let ghost ji = j as int;
            let a = v[0];
            let b = v[j];
            v[0] = b;
            v[j] = a;
            proof {
                assert(v@ == pre.update(0, pre[ji]).update(ji, pre[0]));
                assert forall|ch: char| v@.contains(ch) == pre.contains(ch) by {
                    if v@.contains(ch) {
                        let i = choose|i: int| 0 <= i < v@.len() && v@[i] == ch;
                        if i == 0 {
                            assert(pre[ji] == ch);
                        } else if i == ji {
                            assert(pre[0] == ch);
                        } else {
                            assert(pre[i] == ch);
                        }
                        assert(pre.contains(ch));
                    }
                    if pre.contains(ch) {
                        let i = choose|i: int| 0 <= i < pre.len() && pre[i] == ch;
                        if i == 0 {
                            assert(v@[ji] == ch);
                        } else if i == ji {
                            assert(v@[0] == ch);
                        } else {
                            assert(v@[i] == ch);
                        }
                        assert(v@.contains(ch));
                    }
                }
            }
            return ;
        }
        j = j + 1;
    }
    proof {
        assert(v@ =~= v@.update(0, v@[0]).update(0, v@[0]));
    }
}

/// The flag and the raw character set of category `k`.
fn category_of(config: &PasswordConfig, k: usize) -> (r: (bool, Vec<char>))
    requires
        k < category_count(),
    ensures
        r.0 == config.category_enabled(k as int),
        r.1@ == category_chars(k as int),
{
    let cs = default_charsets();
    if k == 0 {
        (config.include_lowercase, str_chars(cs.lowercase))
    } else if k == 1 {
        (config.include_uppercase, str_chars(cs.uppercase))
    } else if k == 2 {
        (config.include_digits, str_chars(cs.digits))
    } else if k == 3 {
        (config.include_braces, str_chars(cs.braces))
    } else if k == 4 {
        (config.include_punctuation, str_chars(cs.punctuation))
    } else if k == 5 {
        (config.include_quotes, str_chars(cs.quotes))
    } else if k == 6 {
        (config.include_dashes, str_chars(cs.dashes))
    } else if k == 7 {
        (config.include_math, str_chars(cs.math))
    } else {
        (config.include_logograms, str_chars(cs.logograms))
    }
}

/// Builds the list of source pools for `config`: the raw included literal
/// first when non-empty, then every enabled category's non-empty filtered
/// pool, in the fixed category order.
fn build_sources(config: &PasswordConfig) -> (r: Vec<Vec<char>>)
    ensures
        r@.len() == sources(*config).len(),
        forall|j: int| 0 <= j < r@.len() ==> (#[trigger] r@[j])@ == sources(*config)[j],
        forall|j: int| 0 <= j < r@.len() ==> r@[j]@.len() > 0,
{
    broadcast use vstd::seq_lib::group_seq_lib_default;

    let ghost c = *config;
    let mut r: Vec<Vec<char>> = Vec::new();
    let included_chars = str_chars(config.included.as_str());
    let ghost inc_view = included_chars@;
    if included_chars.len() > 0 {
        r.push(included_chars);
    }
    let excl = str_chars(config.excluded.as_str());
    let mut k: usize = 0;
    proof {
        assert(category_sources_upto(c, 0) =~= Seq::<Seq<char>>::empty());
        if c.included@.len() > 0 {
            assert(sources_upto(c, 0) =~= seq![c.included@]);
            assert(r@.len() == 1);
            assert(r@[0]@ == c.included@);
        } else {
            assert(r@.len() == 0);
        }
    }
    while k < 9
        invariant
            k <= 9,
            excl@ == c.excluded@,
            c == *config,
            r@.len() == sources_upto(c, k as int).len(),
            forall|j: int|
                0 <= j < r@.len() ==> (#[trigger] r@[j])@ == sources_upto(c, k as int)[j],
            forall|j: int| 0 <= j < r@.len() ==> r@[j]@.len() > 0,
        decreases 9 - k,
    {
        let ghost ki = k as int;
        let ghost pre = r@;
        let (enabled, cat) = category_of(config, k);
        let filtered = filter_chars(&cat, &excl);
        proof {
            assert(filtered@ == pool(c, ki));
        }
        if enabled && filtered.len() > 0 {
            r.push(filtered);
        }
        proof {
            if category_active(c, ki) {
                assert(category_sources_upto(c, ki + 1) == category_sources_upto(c, ki).push(
                    pool(c, ki),
                ));
                assert(sources_upto(c, ki + 1) =~= sources_upto(c, ki).push(pool(c, ki)));
                assert(r@ == pre.push(filtered));
            } else {
                assert(category_sources_upto(c, ki + 1) == category_sources_upto(c, ki));
                assert(sources_upto(c, ki + 1) =~= sources_upto(c, ki));
                assert(r@ == pre);
            }
        }
        k = k + 1;
    }
    r
}

/// Whether `ch` belongs to one of the six symbol categories.
pub fn is_symbol_char(ch: char) -> (r: bool)
    ensures
        r == is_symbol(ch),
{
    let cs = default_charsets();
    let braces = str_chars(cs.braces);
    let punctuation = str_chars(cs.punctuation);
    let quotes = str_chars(cs.quotes);
    let dashes = str_chars(cs.dashes);
    let math_chars = str_chars(cs.math);
    let logograms = str_chars(cs.logograms);
    contains_char(&braces, ch) || contains_char(&punctuation, ch) || contains_char(&quotes, ch)
        || contains_char(&dashes, ch) || contains_char(&math_chars, ch) || contains_char(
        &logograms,
        ch,
    )
}

/// How many of the first `k` category flags are enabled.
spec fn count_enabled_upto(c: PasswordConfig, k: int) -> int
    decreases k,
{
    if k <= 0 {
        0
    } else {
        count_enabled_upto(c, k - 1) + if c.category_enabled(k - 1) {
            1int
        } else {
            0
        }
    }
}

/// There are no more active category sources than enabled category flags.
proof fn lemma_category_sources_len(c: PasswordConfig, k: int)
    requires
        0 <= k,
    ensures
        category_sources_upto(c, k).len() <= count_enabled_upto(c, k),
    decreases k,
{
    if k > 0 {
        lemma_category_sources_len(c, k - 1);
    }
}

/// No character of `excluded` survives into any active category source:
/// every category pool is filtered against `excluded`.
proof fn lemma_category_sources_exclude(c: PasswordConfig, k: int, ch: char)
    requires
        0 <= k,
        c.excluded@.contains(ch),
    ensures
        forall|j: int|
            0 <= j < category_sources_upto(c, k).len() ==> !(#[trigger] category_sources_upto(
                c,
                k,
            )[j]).contains(ch),
    decreases k,
{
    broadcast use group_filter_ensures;

    if k > 0 {
        lemma_category_sources_exclude(c, k - 1, ch);
        assert forall|j: int|
            0 <= j < category_sources_upto(c, k).len() implies !(#[trigger] category_sources_upto(
            c,
            k,
        )[j]).contains(ch) by {
            if j < category_sources_upto(c, k - 1).len() {
                assert(category_sources_upto(c, k)[j] == category_sources_upto(c, k - 1)[j]);
            } else {
                assert(category_sources_upto(c, k)[j] == pool(c, k - 1));
                let p = pool(c, k - 1);
                if p.contains(ch) {
                    let l = choose|l: int| 0 <= l < p.len() && p[l] == ch;
                    assert(!c.excluded@.contains(p[l]));
                }
            }
        }
    }
}

/// The filtered pool of every active category among the first `kk` stands
/// somewhere in the list of active category sources.
proof fn lemma_active_pool_is_source(c: PasswordConfig, k: int, kk: int)
    requires
        0 <= k < kk,
        category_active(c, k),
    ensures
        exists|j: int|
            0 <= j < category_sources_upto(c, kk).len() && #[trigger] category_sources_upto(
                c,
                kk,
            )[j] == pool(c, k),
    decreases kk,
{
    if kk == k + 1 {
        let n = category_sources_upto(c, kk).len();
        assert(category_sources_upto(c, kk)[n - 1] == pool(c, k));
    } else {
        lemma_active_pool_is_source(c, k, kk - 1);
        let j = choose|j: int|
            0 <= j < category_sources_upto(c, kk - 1).len() && #[trigger] category_sources_upto(
                c,
                kk - 1,
            )[j] == pool(c, k);
        assert(category_sources_upto(c, kk)[j] == pool(c, k));
    }
}

/// For every configuration that passes validation and whose length also
/// leaves room for the forced-include source when there is one, seeding
/// cannot overshoot, so the generated password has exactly `length`
/// characters.
pub proof fn lemma_valid_config_generates_exact_length(c: PasswordConfig)
    requires
        c.is_valid(),
        c.included@.len() == 0 || c.length as int >= c.spec_sets_count() + 1,
    ensures
        sources(c).len() <= c.length,
        generated_length(c) == c.length,
{
    lemma_category_sources_len(c, category_count());
    reveal_with_fuel(count_enabled_upto, 10);
    assert(count_enabled_upto(c, category_count()) == c.spec_sets_count());
}

/// No character of `excluded` that is not also force-included (and is not
/// the fallback filler of an empty charset) ever appears in the output:
/// exclusion removes it from every category pool, and only the raw
/// included literal escapes exclusion.
pub proof fn lemma_excluded_chars_absent(c: PasswordConfig, out: Seq<char>, ch: char)
    requires
        chars_from_charset(c, out),
        c.excluded@.contains(ch),
        !c.included@.contains(ch),
        charset(c).len() > 0 || ch != '~',
    ensures
        !out.contains(ch),
{
    broadcast use group_filter_ensures;

    if out.contains(ch) {
        let i = choose|i: int| 0 <= i < out.len() && out[i] == ch;
        if charset(c).len() == 0 {
            assert(out[i] == '~');
        } else {
            assert(charset(c).contains(out[i]));
            lemma_concat_all_membership(sources(c), ch);
            let j = choose|j: int| 0 <= j < sources(c).len() && (#[trigger] sources(c)[j]).contains(ch);
            lemma_category_sources_exclude(c, category_count(), ch);
            let cat_j = if c.included@.len() > 0 {
                j - 1
            } else {
                j
            };
            if c.included@.len() > 0 && j == 0 {
                assert(c.included@.contains(ch));
            } else {
                assert(sources(c)[j] == category_sources_upto(c, category_count())[cat_j]);
                assert(!category_sources_upto(c, category_count())[cat_j].contains(ch));
            }
        }
    }
}

/// A non-empty `included` string always has at least one of its characters
/// in the output: the raw included literal is the first source pool.
pub proof fn lemma_included_represented(c: PasswordConfig, out: Seq<char>)
    requires
        all_sources_represented(c, out),
        c.included@.len() > 0,
    ensures
        exists|ch: char| c.included@.contains(ch) && out.contains(ch),
{
    assert(sources(c)[0] == c.included@);
    assert(sources(c).len() > 0);
    let ch = choose|ch: char| (#[trigger] sources(c)[0]).contains(ch) && out.contains(ch);
    assert(c.included@.contains(ch) && out.contains(ch));
}

/// When a non-symbol category (lowercase, uppercase or digits) is enabled
/// and keeps a non-empty filtered pool, the first character of the output
/// is never a symbol.
pub proof fn lemma_no_leading_symbol(c: PasswordConfig, out: Seq<char>, k: int)
    requires
        all_sources_represented(c, out),
        no_leading_symbol(out),
        0 <= k < 3,
        category_active(c, k),
    ensures
        out.len() > 0,
        !is_symbol(out[0]),
{
    broadcast use vstd::seq_lib::group_seq_lib_default;

    lemma_active_pool_is_source(c, k, category_count());
    let j = choose|j: int|
        0 <= j < category_sources_upto(c, category_count()).len() && #[trigger] category_sources_upto(
            c,
            category_count(),
        )[j] == pool(c, k);
    let jj = if c.included@.len() > 0 {
        j + 1
    } else {
        j
    };
    assert(sources(c)[jj] == pool(c, k));
    let ch = choose|ch: char| (#[trigger] sources(c)[jj]).contains(ch) && out.contains(ch);
    let l = choose|l: int| 0 <= l < pool(c, k).len() && pool(c, k)[l] == ch;
    assert(category_chars(k).contains(ch)) by {
        Seq::lemma_filter_contains_rev(category_chars(k), |x: char| !c.excluded@.contains(x), ch);
    }
    crate::charsets::lemma_letters_and_digits_are_not_symbols();
    assert(!is_symbol(ch));
    let i = choose|i: int| 0 <= i < out.len() && out[i] == ch;
    assert(!is_symbol(out[i]));
}

/// Relies on `String`'s `FromIterator` impl: collecting characters yields
/// the string of exactly those characters, in order.
#[verifier::external_body]
fn string_from_chars(v: &Vec<char>) -> (r: String)
    ensures
        r@ == v@,
{
    v.iter().collect()
}

/// Generate a password.
///
/// Builds every source pool of the configuration, seeds one uniformly
/// random character from each, fills up to the target length from the
/// combined charset (falling back to the filler '~' only when that charset
/// is empty), shuffles the buffer, and repairs a leading symbol. The output
/// holds `config.length` characters unless seeding alone overshoots it,
/// every character comes from the combined charset, every source pool is
/// represented, and the first character is a symbol only if every character
/// is.
pub fn generate_password(config: &PasswordConfig) -> (r: String)
    ensures
        r@.len() == generated_length(*config),
        chars_from_charset(*config, r@),
        all_sources_represented(*config, r@),
        no_leading_symbol(r@),
{
    broadcast use group_to_multiset_ensures;

    let ghost c = *config;
    let mut seeder = new_seeder();
    let mut rng = seeded_rng(&mut seeder);
    let srcs = build_sources(config);
    let mut charset_chars: Vec<char> = Vec::new();
    let mut password: Vec<char> = Vec::new();
    let mut k: usize = 0;
    proof {
        assert(sources(c).take(0) =~= Seq::<Seq<char>>::empty());
        assert(charset_chars@ =~= concat_all(sources(c).take(0)));
    }
    while k < srcs.len()
        invariant
            k <= srcs@.len(),
            srcs@.len() == sources(c).len(),
            forall|j: int| 0 <= j < srcs@.len() ==> (#[trigger] srcs@[j])@ == sources(c)[j],
            forall|j: int| 0 <= j < srcs@.len() ==> srcs@[j]@.len() > 0,
            charset_chars@ == concat_all(sources(c).take(k as int)),
            password@.len() == k,
            forall|j: int| 0 <= j < k ==> (#[trigger] sources(c)[j]).contains(password@[j]),
        decreases srcs@.len() - k,
    {
        let ghost ki = k as int;
        let pool_k = &srcs[k];
        let idx = rng_index(&mut rng, pool_k.len());
        password.push(pool_k[idx]);
        push_all(&mut charset_chars, pool_k);
        proof {
            assert(sources(c).take(ki + 1).drop_last() =~= sources(c).take(ki));
            assert(sources(c).take(ki + 1).last() == sources(c)[ki]);
            assert(charset_chars@ == concat_all(sources(c).take(ki + 1)));
            assert(sources(c)[ki].contains(password@[ki]));
        }
        k = k + 1;
    }
    proof {
        assert(sources(c).take(sources(c).len() as int) =~= sources(c));
        assert(charset_chars@ == charset(c));
        if sources(c).len() > 0 {
            assert(srcs@[0]@.len() > 0);
            lemma_concat_all_contains(sources(c), 0, sources(c)[0][0]);
        }
        assert forall|i: int|
            0 <= i < password@.len() implies if charset(c).len() == 0 {
            password@[i] == '~'
        } else {
            charset(c).contains(#[trigger] password@[i])
        } by {
            assert(sources(c)[i].contains(password@[i]));
            lemma_concat_all_contains(sources(c), i, password@[i]);
        }
    }
    let target = config.length;
    while password.len() < target
        invariant
            charset_chars@ == charset(c),
            target == c.length,
            password@.len() >= sources(c).len(),
            password@.len() <= generated_length(c),
            forall|i: int|
                0 <= i < password@.len() ==> if charset(c).len() == 0 {
                    password@[i] == '~'
                } else {
                    charset(c).contains(#[trigger] password@[i])
                },
            forall|j: int|
                0 <= j < sources(c).len() ==> exists|i: int|
                    0 <= i < password@.len() && (#[trigger] sources(c)[j]).contains(password@[i]),
        decreases target - password.len(),
    {
        let ghost pre = password@;
        if charset_chars.len() > 0 {
            let idx = rng_index(&mut rng, charset_chars.len());
            let ch = charset_chars[idx];
            password.push(ch);
        } else {
            password.push('~');
        }
        proof {
            assert forall|j: int|
                0 <= j < sources(c).len() implies exists|i: int|
                0 <= i < password@.len() && (#[trigger] sources(c)[j]).contains(password@[i]) by {
                let i = choose|i: int|
                    0 <= i < pre.len() && (#[trigger] sources(c)[j]).contains(pre[i]);
                assert(password@[i] == pre[i]);
            }
        }
    }
    proof {
        assert(password@.len() == generated_length(c));
    }
    // Convert the per-position representation facts into per-value facts
    // that survive the shuffle.
    proof {
        assert forall|j: int|
            0 <= j < sources(c).len() implies exists|ch: char|
            (#[trigger] sources(c)[j]).contains(ch) && password@.contains(ch) by {
            let i = choose|i: int|
                0 <= i < password@.len() && (#[trigger] sources(c)[j]).contains(password@[i]);
            assert(password@.contains(password@[i]));
            assert(sources(c)[j].contains(password@[i]) && password@.contains(password@[i]));
        }
    }
    let ghost pre_shuffle = password@;
    shuffle_chars(&mut rng, &mut password);
    proof {
        assert forall|ch: char| password@.contains(ch) == pre_shuffle.contains(ch) by {
            assert(password@.contains(ch) <==> password@.to_multiset().count(ch) > 0);
            assert(pre_shuffle.contains(ch) <==> pre_shuffle.to_multiset().count(ch) > 0);
        }
        assert forall|i: int|
            0 <= i < password@.len() implies if charset(c).len() == 0 {
            password@[i] == '~'
        } else {
            charset(c).contains(#[trigger] password@[i])
        } by {
            assert(password@.contains(password@[i]));
            assert(pre_shuffle.contains(password@[i]));
            let l = choose|l: int| 0 <= l < pre_shuffle.len() && pre_shuffle[l] == password@[i];
            assert(if charset(c).len() == 0 {
                pre_shuffle[l] == '~'
            } else {
                charset(c).contains(pre_shuffle[l])
            });
        }
        assert forall|j: int|
            0 <= j < sources(c).len() implies exists|ch: char|
            (#[trigger] sources(c)[j]).contains(ch) && password@.contains(ch) by {
            let ch = choose|ch: char|
                (#[trigger] sources(c)[j]).contains(ch) && pre_shuffle.contains(ch);
            assert(password@.contains(ch));
        }
    }
    let ghost pre_repair = password@;
    repair_leading_symbol(&mut password);
    proof {
        assert forall|i: int|
            0 <= i < password@.len() implies if charset(c).len() == 0 {
            password@[i] == '~'
        } else {
            charset(c).contains(#[trigger] password@[i])
        } by {
            assert(password@.contains(password@[i]));
            assert(pre_repair.contains(password@[i]));
            let l = choose|l: int| 0 <= l < pre_repair.len() && pre_repair[l] == password@[i];
            assert(if charset(c).len() == 0 {
                pre_repair[l] == '~'
            } else {
                charset(c).contains(pre_repair[l])
            });
        }
        assert forall|j: int|
            0 <= j < sources(c).len() implies exists|ch: char|
            (#[trigger] sources(c)[j]).contains(ch) && password@.contains(ch) by {
            let ch = choose|ch: char|
                (#[trigger] sources(c)[j]).contains(ch) && pre_repair.contains(ch);
            assert(password@.contains(ch));
        }
        if password@.len() > 0 && exists|i: int|
            0 <= i < password@.len() && !is_symbol(#[trigger] password@[i]) {
            let i = choose|i: int| 0 <= i < password@.len() && !is_symbol(#[trigger] password@[i]);
            assert(password@.contains(password@[i]));
            assert(pre_repair.contains(password@[i]));
            let l = choose|l: int| 0 <= l < pre_repair.len() && pre_repair[l] == password@[i];
            assert(!is_symbol(pre_repair[l]));
            assert(!is_symbol(password@[0]));
        }
    }
    string_from_chars(&password)
}

} // verus!
