//! Pure helpers of the core: the deterministic escrow-wallet identifier,
//! amount parsing from the display denomination into sompi, and the
//! transaction-explorer URL.

use vstd::prelude::*;

use crate::error::Error;

verus! {

/// How many sompi make one coin in the display denomination.
pub const SOMPI_PER_SPECTRE: u64 = 100_000_000;

/// The identifier under which the escrow wallet for a (target, initiator)
/// pair is stored: `transition-<target>-<initiator>`. It is a function of the
/// two identities alone, so any process instance can rebuild it.
pub open spec fn transition_wallet_identifier(
    target_identifier: Seq<char>,
    initiator_identifier: Seq<char>,
) -> Seq<char> {
    "transition-"@ + target_identifier + "-"@ + initiator_identifier
}

/// Builds the deterministic identifier of the escrow wallet that carries
/// funds from `initiator_identifier` to `target_identifier`.
pub fn build_transition_wallet_identifier(
    target_identifier: &str,
    initiator_identifier: &str,
) -> (r: String)
    ensures
        r@ == transition_wallet_identifier(target_identifier@, initiator_identifier@),
{
    String::from_str("transition-")
        .concat(target_identifier)
        .concat("-")
        .concat(initiator_identifier)
}

/// The deterministic identifier distinguishes direction: as long as the two
/// identities are free of the separator character, swapping initiator and
/// target yields a different identifier. (Identities that themselves contain
/// `-` can make the two concatenations coincide.) That the identifier is
/// deterministic — stable across calls and process restarts — is the
/// `ensures` of `build_transition_wallet_identifier`: the result is a
/// function of the two identities alone.
pub proof fn lemma_transition_wallet_identifier_directional(a: Seq<char>, b: Seq<char>)
    requires
        a != b,
        forall|i: int| 0 <= i < a.len() ==> a[i] != '-',
        forall|i: int| 0 <= i < b.len() ==> b[i] != '-',
    ensures
        transition_wallet_identifier(a, b) != transition_wallet_identifier(b, a),
{
    if transition_wallet_identifier(a, b) == transition_wallet_identifier(b, a) {
        lemma_transition_wallet_identifier_injective(a, b, b, a);
        assert(false);
    }
}

/// The identifier pins the pair down: two dash-free (target, initiator)
/// pairs with the same identifier are the same pair.
pub proof fn lemma_transition_wallet_identifier_injective(
    t1: Seq<char>,
    i1: Seq<char>,
    t2: Seq<char>,
    i2: Seq<char>,
)
    requires
        transition_wallet_identifier(t1, i1) == transition_wallet_identifier(t2, i2),
        forall|i: int| 0 <= i < t1.len() ==> t1[i] != '-',
        forall|i: int| 0 <= i < t2.len() ==> t2[i] != '-',
    ensures
        t1 == t2,
        i1 == i2,
{
    reveal_strlit("transition-");
    reveal_strlit("-");
    let p = "transition-"@;
    let d = "-"@;
    assert(p.len() == 11);
    assert(d.len() == 1);
    assert(d[0] == '-');
    let s1 = p + t1 + d + i1;
    let s2 = p + t2 + d + i2;
    assert(s1 == s2);
    assert(s1.len() == 12 + t1.len() + i1.len());
    assert(s2.len() == 12 + t2.len() + i2.len());
    if t1.len() < t2.len() {
        assert(s1[11 + t1.len() as int] == d[0]);
        assert(s2[11 + t1.len() as int] == t2[t1.len() as int]);
        assert(false);
    }
    if t2.len() < t1.len() {
        assert(s2[11 + t2.len() as int] == d[0]);
        assert(s1[11 + t2.len() as int] == t1[t2.len() as int]);
        assert(false);
    }
    assert forall|i: int| 0 <= i < t1.len() implies t1[i] == t2[i] by {
        assert(s1[11 + i] == t1[i]);
        assert(s2[11 + i] == t2[i]);
    }
    assert(t1 =~= t2);
    assert forall|i: int| 0 <= i < i1.len() implies i1[i] == i2[i] by {
        assert(s1[12 + t1.len() as int + i] == i1[i]);
        assert(s2[12 + t2.len() as int + i] == i2[i]);
    }
    assert(i1 =~= i2);
}

/// Whether the character separates the words of a recovery phrase.
pub open spec fn is_phrase_space(c: char) -> bool {
    c == ' ' || c == '\t' || c == '\n' || c == '\r'
}

/// How many words the first `n` characters hold: a word starts at every
/// non-space character that follows a space or starts the text.
pub open spec fn word_count_prefix(s: Seq<char>, n: int) -> int
    decreases n,
{
    if n <= 0 {
        0
    } else {
        word_count_prefix(s, n - 1) + if !is_phrase_space(s[n - 1]) && (n - 1 == 0
            || is_phrase_space(s[n - 2])) {
            1int
        } else {
            0int
        }
    }
}

/// How many space-separated words the text holds.
pub open spec fn word_count(s: Seq<char>) -> int {
    word_count_prefix(s, s.len() as int)
}

/// Checks the shape of a recovery phrase: a valid phrase has exactly 12 or
/// 24 words. Everything else is refused as `InvalidMnemonic`; whether the
/// words and checksum form a real mnemonic is the engine's to judge.
pub fn check_mnemonic_word_count(phrase: &str) -> (r: Result<(), Error>)
    ensures
        r is Ok <==> (word_count(phrase@) == 12 || word_count(phrase@) == 24),
        r matches Err(e) ==> e == Error::InvalidMnemonic,
{
    let n = phrase.unicode_len();
    let mut count: usize = 0;
    let mut prev_space = true;
    let mut i: usize = 0;
    while i < n
        invariant
            0 <= i <= n == phrase@.len(),
            count as int == word_count_prefix(phrase@, i as int),
            count <= i,
            prev_space == (i == 0 || is_phrase_space(phrase@[i as int - 1])),
        decreases n - i,
    {
        let c = phrase.get_char(i);
        let u = c as u32;
        let space = u == 32 || u == 9 || u == 10 || u == 13;
        proof {
            assert(space == is_phrase_space(phrase@[i as int]));
        }
        if !space && prev_space {
            count += 1;
        }
        prev_space = space;
        i += 1;
    }
    if count == 12 || count == 24 {
        Ok(())
    } else {
        Err(Error::InvalidMnemonic)
    }
}

/// The networks the explorer distinguishes.
#[derive(Debug, Clone, Copy, PartialEq, Eq, Structural)]
pub enum NetworkKind {
    Mainnet,
    Testnet,
    Devnet,
    Simnet,
}

/// The explorer's subdomain: the main network has its own, every other
/// network shares the test one.
pub open spec fn explorer_subdomain(network_kind: NetworkKind) -> Seq<char> {
    match network_kind {
        NetworkKind::Mainnet => "explorer"@,
        _ => "explorer-tn"@,
    }
}

/// The address of a transaction in the block explorer.
pub open spec fn tx_explorer_url(tx_id: Seq<char>, network_kind: NetworkKind) -> Seq<char> {
    "https://"@ + explorer_subdomain(network_kind) + ".spectre-network.org/txs/"@ + tx_id
}

/// Builds the block-explorer URL for a transaction on the given network.
pub fn get_tx_explorer_url(tx_id: &str, network_kind: NetworkKind) -> (r: String)
    ensures
        r@ == tx_explorer_url(tx_id@, network_kind),
{
    let sub_domain: &str = match network_kind {
        NetworkKind::Mainnet => "explorer",
        _ => "explorer-tn",
    };
    String::from_str("https://").concat(sub_domain).concat(".spectre-network.org/txs/").concat(
        tx_id,
    )
}

/// Whether the node can serve the service: it must be synced and must carry
/// a UTXO index, or wallets cannot see their balances.
pub fn check_node_status(is_synced: bool, has_utxo_index: bool) -> (r: Result<(), Error>)
    ensures
        r is Ok <==> is_synced && has_utxo_index,
        !is_synced ==> (r matches Err(e) && e matches Error::Engine(m) && m@
            == "node is not synced"@),
        is_synced && !has_utxo_index ==> (r matches Err(e) && e matches Error::Engine(m) && m@
            == "node is running without UTXO index"@),
{
    if !is_synced {
        return Err(Error::Engine(String::from_str("node is not synced")));
    }
    if !has_utxo_index {
        return Err(Error::Engine(String::from_str("node is running without UTXO index")));
    }
    Ok(())
}

/// Whether the character is a decimal digit.
pub open spec fn is_ascii_digit(c: char) -> bool {
    48 <= c as u32 <= 57
}

/// The numeric value of a decimal digit.
pub open spec fn digit_value(c: char) -> int {
    c as u32 - 48
}

/// Every character of the sequence is a decimal digit.
pub open spec fn all_digits(s: Seq<char>) -> bool {
    forall|i: int| 0 <= i < s.len() ==> is_ascii_digit(#[trigger] s[i])
}

/// The number the digit sequence denotes, most significant digit first.
pub open spec fn digits_value(s: Seq<char>) -> int
    decreases s.len(),
{
    if s.len() == 0 {
        0
    } else {
        digits_value(s.drop_last()) * 10 + digit_value(s.last())
    }
}

/// Ten to the `n`th.
pub open spec fn pow10(n: nat) -> int
    decreases n,
{
    if n == 0 {
        1
    } else {
        10 * pow10((n - 1) as nat)
    }
}

/// The index of the first decimal point, or the whole length if there is
/// none.
pub open spec fn dot_index(s: Seq<char>) -> int
    decreases s.len(),
{
    if s.len() == 0 {
        0
    } else if s[0] == '.' {
        0
    } else {
        1 + dot_index(s.drop_first())
    }
}

/// What stands before the first decimal point.
pub open spec fn integer_part(s: Seq<char>) -> Seq<char> {
    s.take(dot_index(s))
}

/// What stands after the first decimal point; empty if there is none.
pub open spec fn fraction_part(s: Seq<char>) -> Seq<char> {
    if dot_index(s) == s.len() {
        Seq::empty()
    } else {
        s.skip(dot_index(s) + 1)
    }
}

/// A well-formed amount in the display denomination: digits with at most one
/// decimal point and at least one digit overall. No sign, no exponent.
pub open spec fn valid_spectre_amount(s: Seq<char>) -> bool {
    &&& all_digits(integer_part(s))
    &&& all_digits(fraction_part(s))
    &&& integer_part(s).len() + fraction_part(s).len() > 0
}

/// The amount in sompi: the integer part scaled by `10^8` plus the first
/// eight fractional digits scaled to their place; fractional digits beyond
/// the eighth are truncated.
pub open spec fn spectre_amount_sompi(s: Seq<char>) -> int {
    digits_value(integer_part(s)) * pow10(8) + fraction_sompi(fraction_part(s))
}

/// The sompi the fractional digits contribute.
pub open spec fn fraction_sompi(f: Seq<char>) -> int {
    if f.len() >= 8 {
        digits_value(f.take(8))
    } else {
        digits_value(f) * pow10((8 - f.len()) as nat)
    }
}

/// Where the first decimal point stands: everything before `dot_index` is no
/// point, and the character there, if any, is one.
pub proof fn lemma_dot_index_spec(s: Seq<char>)
    ensures
        0 <= dot_index(s) <= s.len(),
        dot_index(s) < s.len() ==> s[dot_index(s)] == '.',
        forall|j: int| 0 <= j < dot_index(s) ==> s[j] != '.',
    decreases s.len(),
{
    if s.len() > 0 && s[0] != '.' {
        lemma_dot_index_spec(s.drop_first());
        assert(forall|j: int| 1 <= j < s.len() ==> s.drop_first()[j - 1] == #[trigger] s[j]);
    }
}

/// A scan that saw no decimal point before `i`, and one at `i` or none at
/// all, has found the first decimal point.
pub proof fn lemma_dot_index_at(s: Seq<char>, i: int)
    requires
        0 <= i <= s.len(),
        forall|j: int| 0 <= j < i ==> s[j] != '.',
        i == s.len() || s[i] == '.',
    ensures
        dot_index(s) == i,
    decreases s.len(),
{
    if s.len() > 0 && s[0] != '.' {
        assert(forall|j: int| 1 <= j < s.len() ==> s.drop_first()[j - 1] == #[trigger] s[j]);
        lemma_dot_index_at(s.drop_first(), i - 1);
    }
}

/// A digit string denotes a number at least zero.
pub proof fn lemma_digits_value_nonneg(s: Seq<char>)
    requires
        all_digits(s),
    ensures
        digits_value(s) >= 0,
    decreases s.len(),
{
    if s.len() > 0 {
        lemma_digits_value_nonneg(s.drop_last());
    }
}

/// A digit string denotes a number below ten to its length.
pub proof fn lemma_digits_value_bound(s: Seq<char>)
    requires
        all_digits(s),
    ensures
        0 <= digits_value(s) < pow10(s.len()),
    decreases s.len(),
{
    if s.len() > 0 {
        lemma_digits_value_bound(s.drop_last());
        assert(pow10(s.len()) == 10 * pow10((s.len() - 1) as nat));
    }
}

/// Scanning one more digit multiplies the prefix value by ten and adds it.
pub proof fn lemma_digits_value_step(s: Seq<char>, i: int)
    requires
        0 <= i < s.len(),
    ensures
        digits_value(s.take(i + 1)) == digits_value(s.take(i)) * 10 + digit_value(s[i]),
{
    assert(s.take(i + 1).drop_last() =~= s.take(i));
    assert(s.take(i + 1).last() == s[i]);
}

/// A digit string denotes no less than any of its prefixes.
pub proof fn lemma_digits_value_prefix(s: Seq<char>, k: int)
    requires
        all_digits(s),
        0 <= k <= s.len(),
    ensures
        digits_value(s.take(k)) <= digits_value(s),
    decreases s.len() - k,
{
    if k < s.len() {
        lemma_digits_value_step(s, k);
        lemma_digits_value_nonneg(s.take(k));
        lemma_digits_value_prefix(s, k + 1);
    } else {
        assert(s.take(k) =~= s);
    }
}

/// Parses an amount in the display denomination ("10.5") into sompi, the
/// smallest unit, at eight decimal places: exactly the well-formed, positive
/// amounts that fit the result type parse, and everything else — a missing
/// amount, a malformed or signed string, zero, or an amount too large for
/// sompi in 64 bits — is refused as `InvalidAmount`. Fractional digits beyond
/// the eighth are truncated.
pub fn try_parse_required_nonzero_spectre_as_sompi_u64(spectre_amount: Option<&str>) -> (r: Result<
    u64,
    Error,
>)
    ensures
        match spectre_amount {
            Some(a) => {
                let ok = valid_spectre_amount(a@) && 0 < spectre_amount_sompi(a@) <= u64::MAX as int;
                &&& ok ==> (r matches Ok(v) && v as int == spectre_amount_sompi(a@))
                &&& !ok ==> (r matches Err(e) && e == Error::InvalidAmount)
            },
            None => r matches Err(e) && e == Error::InvalidAmount,
        },
{
    let a = match spectre_amount {
        Some(a) => a,
        None => {
            return Err(Error::InvalidAmount);
        },
    };
    let n = a.unicode_len();
    proof {
        lemma_dot_index_spec(a@);
    }

    // First pass: locate the single decimal point and refuse anything that
    // is neither a digit nor that point.
    let mut dot: usize = n;
    let mut seen_dot = false;
    let mut i: usize = 0;
    while i < n
        invariant
            0 <= i <= n == a@.len(),
            seen_dot ==> dot < i && a@[dot as int] == '.' && dot_index(a@) == dot as int,
            !seen_dot ==> dot == n && (forall|j: int| 0 <= j < i ==> a@[j] != '.'),
            forall|j: int| 0 <= j < i && j != dot as int ==> is_ascii_digit(#[trigger] a@[j]),
        decreases n - i,
    {
        let c = a.get_char(i);
        let u = c as u32;
        if u == 46 {
            if seen_dot {
                // A second decimal point stands in the fraction part, so the
                // amount is malformed.
                proof {
                    assert(a@[i as int] == '.');
                    let f = fraction_part(a@);
                    let fi = i - dot - 1;
                    assert(f[fi as int] == a@[i as int]);
                    assert(!is_ascii_digit('.'));
                    assert(!all_digits(f));
                }
                return Err(Error::InvalidAmount);
            }
            proof {
                assert(a@[i as int] == '.');
                lemma_dot_index_at(a@, i as int);
            }
            seen_dot = true;
            dot = i;
        } else if u < 48 || u > 57 {
            // Not a digit: whichever side of the decimal point it stands on
            // is malformed.
            proof {
                assert(!is_ascii_digit(a@[i as int]));
                if dot_index(a@) > i as int {
                    assert(integer_part(a@)[i as int] == a@[i as int]);
                    assert(!all_digits(integer_part(a@)));
                } else {
                    assert(a@[dot_index(a@)] == '.');
                    assert(dot_index(a@) < i as int);
                    let f = fraction_part(a@);
                    let fi = i as int - dot_index(a@) - 1;
                    assert(f[fi] == a@[i as int]);
                    assert(!all_digits(f));
                }
            }
            return Err(Error::InvalidAmount);
        }
        i += 1;
    }
    proof {
        if !seen_dot {
            lemma_dot_index_at(a@, n as int);
        }
        assert forall|j: int| 0 <= j < integer_part(a@).len() implies is_ascii_digit(
            #[trigger] integer_part(a@)[j],
        ) by {
            assert(integer_part(a@)[j] == a@[j]);
        }
        assert forall|j: int| 0 <= j < fraction_part(a@).len() implies is_ascii_digit(
            #[trigger] fraction_part(a@)[j],
        ) by {
            assert(fraction_part(a@)[j] == a@[j + dot_index(a@) + 1]);
        }
    }
    let digit_count = if seen_dot {
        n - 1
    } else {
        n
    };
    if digit_count == 0 {
        proof {
            assert(integer_part(a@).len() + fraction_part(a@).len() == 0);
        }
        return Err(Error::InvalidAmount);
    }
    assert(valid_spectre_amount(a@));

    // Second pass: the integer part, most significant digit first, refusing
    // an amount whose integer part alone is already out of range.
    let int_len = if seen_dot {
        dot
    } else {
        n
    };
    let ghost ipart = integer_part(a@);
    let cap: u128 = u64::MAX as u128;
    let mut acc: u128 = 0;
    let mut i: usize = 0;
    while i < int_len
        invariant
            0 <= i <= int_len <= n == a@.len(),
            int_len as int == dot_index(a@),
            ipart == integer_part(a@),
            valid_spectre_amount(a@),
            cap == u64::MAX as u128,
            acc as int == digits_value(ipart.take(i as int)),
            acc <= cap,
        decreases int_len - i,
    {
        let c = a.get_char(i);
        let d = (c as u32 - 48) as u128;
        proof {
            assert(ipart[i as int] == a@[i as int]);
            lemma_digits_value_step(ipart, i as int);
            assert(d < 10);
        }
        acc = acc * 10 + d;
        if acc > cap {
            // The full amount can only be larger still: out of range.
            proof {
                lemma_digits_value_prefix(ipart, i + 1);
                lemma_digits_value_nonneg(ipart);
                let f = fraction_part(a@);
                if f.len() >= 8 {
                    lemma_digits_value_nonneg(f.take(8));
                } else {
                    lemma_digits_value_nonneg(f);
                    assert(pow10((8 - f.len()) as nat) >= 1) by {
                        lemma_pow10_positive((8 - f.len()) as nat);
                    }
                    assert(digits_value(f) * pow10((8 - f.len()) as nat) >= 0) by (nonlinear_arith)
                        requires
                            digits_value(f) >= 0,
                            pow10((8 - f.len()) as nat) >= 1,
                    ;
                }
                lemma_pow10_small();
                assert(digits_value(ipart) * 100_000_000 >= acc as int) by (nonlinear_arith)
                    requires
                        digits_value(ipart) >= acc as int,
                        acc >= 0,
                ;
            }
            return Err(Error::InvalidAmount);
        }
        i += 1;
    }
    proof {
        assert(ipart.take(int_len as int) =~= ipart);
    }

    // Third pass: the first eight fractional digits, scaled to their place.
    let frac_len = if seen_dot {
        n - dot - 1
    } else {
        0
    };
    let used = if frac_len < 8 {
        frac_len
    } else {
        8
    };
    let ghost fpart = fraction_part(a@);
    let mut facc: u64 = 0;
    let mut k: usize = 0;
    while k < used
        invariant
            0 <= k <= used <= 8,
            used <= frac_len,
            seen_dot ==> frac_len == n - dot - 1 && dot as int == dot_index(a@),
            !seen_dot ==> frac_len == 0,
            n == a@.len(),
            fpart == fraction_part(a@),
            frac_len as int == fpart.len(),
            valid_spectre_amount(a@),
            facc as int == digits_value(fpart.take(k as int)),
            facc < 100_000_000,
        decreases used - k,
    {
        let c = a.get_char(dot + 1 + k);
        let d = (c as u32 - 48) as u64;
        proof {
            assert(fpart[k as int] == a@[dot + 1 + k]);
            lemma_digits_value_step(fpart, k as int);
            assert(d < 10);
            lemma_digits_value_bound(fpart.take(k as int));
            assert(pow10(k as nat) <= pow10(7)) by {
                lemma_pow10_increases(k as nat, 7);
            }
            lemma_pow10_small();
        }
        facc = facc * 10 + d;
        k += 1;
    }
    let mut scale: u64 = 1;
    let mut t: usize = used;
    while t < 8
        invariant
            used <= t <= 8,
            scale as int == pow10((t - used) as nat),
            scale <= 100_000_000,
        decreases 8 - t,
    {
        proof {
            assert(pow10((t + 1 - used) as nat) == 10 * pow10((t - used) as nat));
            assert(pow10((8 - used) as nat) <= pow10(8)) by {
                lemma_pow10_increases((8 - used) as nat, 8);
            }
            assert(pow10((t + 1 - used) as nat) <= pow10((8 - used) as nat)) by {
                lemma_pow10_increases((t + 1 - used) as nat, (8 - used) as nat);
            }
            lemma_pow10_small();
        }
        scale = scale * 10;
        t += 1;
    }
    proof {
        lemma_pow10_positive((8 - used) as nat);
        lemma_digits_value_bound(fpart.take(used as int));
        assert((facc as int) * (scale as int) < pow10(used as nat) * pow10((8 - used) as nat))
            by (nonlinear_arith)
            requires
                0 <= facc as int,
                (facc as int) < pow10(used as nat),
                scale as int == pow10((8 - used) as nat),
                scale as int >= 1,
        ;
        lemma_pow10_adds(used as nat, (8 - used) as nat);
        lemma_pow10_small();
    }
    let fraction: u64 = facc * scale;
    proof {
        assert(fpart.take(used as int) =~= if fpart.len() >= 8 {
            fpart.take(8)
        } else {
            fpart
        });
        if fpart.len() >= 8 {
            assert(used == 8);
            assert(scale as int == pow10(0));
            assert(fraction as int == fraction_sompi(fpart));
        } else {
            assert(used as int == fpart.len());
            assert(fraction as int == digits_value(fpart) * pow10((8 - fpart.len()) as nat));
        }
    }
    let total: u128 = acc * 100_000_000u128 + (fraction as u128);
    proof {
        assert(acc as int * 100_000_000 + fraction as int <= u64::MAX as int * 100_000_000
            + 100_000_000) by (nonlinear_arith)
            requires
                acc as int <= u64::MAX as int,
                0 <= fraction as int <= 100_000_000,
        ;
        assert(total as int == spectre_amount_sompi(a@));
    }
    if total == 0 {
        return Err(Error::InvalidAmount);
    }
    if total > u64::MAX as u128 {
        return Err(Error::InvalidAmount);
    }
    Ok(total as u64)
}

/// The small powers of ten, written out.
pub proof fn lemma_pow10_small()
    ensures
        pow10(0) == 1,
        pow10(1) == 10,
        pow10(2) == 100,
        pow10(3) == 1000,
        pow10(4) == 10_000,
        pow10(5) == 100_000,
        pow10(6) == 1_000_000,
        pow10(7) == 10_000_000,
        pow10(8) == 100_000_000,
{
    assert(pow10(0) == 1);
    assert(pow10(1) == 10);
    assert(pow10(2) == 100);
    assert(pow10(3) == 1000);
    assert(pow10(4) == 10_000);
    assert(pow10(5) == 100_000);
    assert(pow10(6) == 1_000_000);
    assert(pow10(7) == 10_000_000);
    assert(pow10(8) == 100_000_000);
}

/// Ten to any power is at least one.
pub proof fn lemma_pow10_positive(n: nat)
    ensures
        pow10(n) >= 1,
    decreases n,
{
    if n > 0 {
        lemma_pow10_positive((n - 1) as nat);
    }
}

/// Ten to a lower power is no more than ten to a higher one.
pub proof fn lemma_pow10_increases(a: nat, b: nat)
    requires
        a <= b,
    ensures
        pow10(a) <= pow10(b),
    decreases b,
{
    if a < b {
        lemma_pow10_increases(a, (b - 1) as nat);
        lemma_pow10_positive((b - 1) as nat);
    }
}

/// Powers of ten multiply by adding exponents.
pub proof fn lemma_pow10_adds(a: nat, b: nat)
    ensures
        pow10(a) * pow10(b) == pow10((a + b) as nat),
    decreases a,
{
    if a > 0 {
        lemma_pow10_adds((a - 1) as nat, b);
        assert(pow10(a) * pow10(b) == 10 * (pow10((a - 1) as nat) * pow10(b))) by (nonlinear_arith)
            requires
                pow10(a) == 10 * pow10((a - 1) as nat),
        ;
    }
}

} // verus!
