//! Classification: decide whether a raw update is a token-creation
//! transaction of the target program, and extract the event fields.
//!
//! The decision is a pure function of the update.  Log matching is byte
//! substring search over the UTF-8 log text; the mint is inferred by diffing
//! the post-execution token balances against the pre-execution ones.

use vstd::prelude::*;
use vstd::utf8::encode_utf8;
use vstd::utf8::valid_utf8;

use crate::event::CreateEvent;
use crate::search::contains_bytes;
use crate::search::contains_sub;
use crate::search::ends_with_bytes;
use crate::search::equal_bytes;
use crate::search::is_suffix_of;
use crate::update::RawUpdate;
use crate::update::TokenBalance;
use crate::unicode::utf8_valid;
use crate::update::TransactionInfo;

verus! {

// ---------------------------------------------------------------------------
// The markers looked for in the log text.
//
// The two creation markers share their pieces, so that "the V2 marker
// contains the plain marker" is plain sequence algebra rather than a fact
// about two unrelated literals.
// ---------------------------------------------------------------------------

/// UTF-8 bytes of the target program's base-58 address.
pub open spec fn program_marker() -> Seq<u8> {
    encode_utf8("6EF8rrecthR5Dkzon8Nwu78hRvfCKubJ14M5uBEwF6P"@)
}

/// UTF-8 bytes of the plain-creation instruction marker.
pub open spec fn create_marker() -> Seq<u8> {
    encode_utf8("Instruction: "@) + encode_utf8("Create"@)
}

/// UTF-8 bytes of the V2-creation instruction marker.
pub open spec fn create_v2_marker() -> Seq<u8> {
    create_marker() + encode_utf8("V2"@)
}

/// UTF-8 bytes of the all-ones system-program placeholder address.
pub open spec fn placeholder_marker() -> Seq<u8> {
    encode_utf8("11111111111111111111111111111111"@)
}

/// UTF-8 bytes of the vanity suffix preferred when choosing among mints.
pub open spec fn pump_suffix() -> Seq<u8> {
    encode_utf8("pump"@)
}

// ---------------------------------------------------------------------------
// Trusted boundary: base-58 rendering.
// ---------------------------------------------------------------------------

/// The base-58 text of a byte sequence, as the default-alphabet encoding
/// produces it.
pub uninterp spec fn base58_of(bytes: Seq<u8>) -> Seq<char>;

/// A character of the default base-58 alphabet: the alphanumerics without
/// '0', 'I', 'O' and 'l'.
pub open spec fn is_base58_char(c: char) -> bool {
    ||| '1' <= c <= '9'
    ||| 'A' <= c <= 'H'
    ||| 'J' <= c <= 'N'
    ||| 'P' <= c <= 'Z'
    ||| 'a' <= c <= 'k'
    ||| 'm' <= c <= 'z'
}

/// Relies on `bs58::encode(..).into_string()`: the text depends on the input
/// bytes alone, is empty exactly when the input is empty, and is drawn from
/// the default base-58 alphabet.
#[verifier::external_body]
fn encode_base58(bytes: &[u8]) -> (r: String)
    ensures
        r@ == base58_of(bytes@),
        bytes@.len() == 0 <==> r@.len() == 0,
        forall|i: int| 0 <= i < r@.len() ==> is_base58_char(#[trigger] r@[i]),
{
    bs58::encode(bytes).into_string()
}

// ---------------------------------------------------------------------------
// Log matching.
// ---------------------------------------------------------------------------

/// The is-create predicate over the raw log text: the text decodes as UTF-8,
/// names the target program, and carries exactly one of the two creation
/// markers — the plain one without the V2 one, or the V2 one.
pub open spec fn logs_match(logs: Seq<u8>) -> bool {
    &&& valid_utf8(logs)
    &&& contains_sub(logs, program_marker())
    &&& {
        ||| (contains_sub(logs, create_marker()) && !contains_sub(logs, create_v2_marker()))
        ||| contains_sub(logs, create_v2_marker())
    }
}

/// Concatenation of two byte strings into an owned needle.
fn concat_bytes(a: &[u8], b: &[u8]) -> (r: Vec<u8>)
    ensures
        r@ == a@ + b@,
{
    let mut v: Vec<u8> = Vec::new();
    v.extend_from_slice(a);
    v.extend_from_slice(b);
    proof {
        assert(v@ =~= a@ + b@);
    }
    v
}

/// Whether the raw log text matches the creation pattern.
pub fn logs_are_create(logs: &[u8]) -> (r: bool)
    ensures
        r == logs_match(logs@),
{
    if !utf8_valid(logs) {
        return false;
    }
    if !contains_bytes(logs, "6EF8rrecthR5Dkzon8Nwu78hRvfCKubJ14M5uBEwF6P".as_bytes()) {
        return false;
    }
    let plain_needle = concat_bytes("Instruction: ".as_bytes(), "Create".as_bytes());
    let v2_needle = concat_bytes(plain_needle.as_slice(), "V2".as_bytes());
    let plain = contains_bytes(logs, plain_needle.as_slice());
    let v2 = contains_bytes(logs, v2_needle.as_slice());
    (plain && !v2) || v2
}

// ---------------------------------------------------------------------------
// Mint extraction: diff the post-execution balances against the
// pre-execution ones and pick the best new mint.
// ---------------------------------------------------------------------------

/// Some pre-execution balance entry names exactly the mint `m`.
pub open spec fn mint_in_pre(pre: Seq<TokenBalance>, m: Seq<char>) -> bool {
    exists|i: int|
        0 <= i < pre.len() && (#[trigger] pre[i].mint matches Some(p) && p@ == m)
}

/// The mint is exactly the all-ones system-program placeholder address.
pub open spec fn is_placeholder(m: Seq<char>) -> bool {
    encode_utf8(m) == placeholder_marker()
}

/// A post-execution entry is a candidate when it names a non-empty mint
/// that is neither in the pre-execution set nor the placeholder.
pub open spec fn is_candidate(pre: Seq<TokenBalance>, b: TokenBalance) -> bool {
    b.mint matches Some(m) && m@.len() > 0 && !mint_in_pre(pre, m@) && !is_placeholder(m@)
}

/// The candidate mints of the post list, in encounter order.
pub open spec fn candidate_mints(pre: Seq<TokenBalance>, post: Seq<TokenBalance>) -> Seq<Seq<char>>
    decreases post.len(),
{
    if post.len() == 0 {
        Seq::empty()
    } else {
        let rest = candidate_mints(pre, post.drop_last());
        if is_candidate(pre, post.last()) {
            rest.push(post.last().mint.unwrap()@)
        } else {
            rest
        }
    }
}

/// The mint's text ends with the vanity suffix.
pub open spec fn ends_with_pump(m: Seq<char>) -> bool {
    is_suffix_of(pump_suffix(), encode_utf8(m))
}

/// The first pump-suffixed entry of a candidate list, if any.
pub open spec fn first_pump(cands: Seq<Seq<char>>) -> Option<Seq<char>>
    decreases cands.len(),
{
    if cands.len() == 0 {
        None
    } else if ends_with_pump(cands.first()) {
        Some(cands.first())
    } else {
        first_pump(cands.drop_first())
    }
}

/// The mint chosen from a candidate list: the first pump-suffixed one if
/// any exists, else the first candidate, else none.
pub open spec fn chosen_of(cands: Seq<Seq<char>>) -> Option<Seq<char>> {
    match first_pump(cands) {
        Some(m) => Some(m),
        None => if cands.len() > 0 {
            Some(cands[0])
        } else {
            None
        },
    }
}

/// The texts of a sequence of owned strings.
pub open spec fn views_of(ss: Seq<String>) -> Seq<Seq<char>> {
    ss.map_values(|s: String| s@)
}

/// Whether some pre-execution entry names exactly the mint `m`.
fn mint_in_pre_exec(pre: &Vec<TokenBalance>, m: &String) -> (r: bool)
    ensures
        r == mint_in_pre(pre@, m@),
{
    let n = pre.len();
    let mut i: usize = 0;
    while i < n
        invariant
            n == pre@.len(),
            0 <= i <= n,
            forall|k: int|
                0 <= k < i ==> (#[trigger] pre@[k].mint matches Some(p) ==> p@ != m@),
        decreases n - i,
    {
        match &pre[i].mint {
            Some(p) => {
                if p.eq(m) {
                    proof {
                        assert(pre@[i as int].mint matches Some(q) && q@ == m@);
                    }
                    return true;
                }
            },
            None => {},
        }
        i += 1;
    }
    false
}

/// Whether the balance entry is a candidate mint.
fn is_candidate_exec(pre: &Vec<TokenBalance>, b: &TokenBalance) -> (r: bool)
    ensures
        r == is_candidate(pre@, *b),
{
    match &b.mint {
        Some(m) => {
            if m.as_str().is_empty() {
                return false;
            }
            if mint_in_pre_exec(pre, m) {
                return false;
            }
            let placeholder = "11111111111111111111111111111111".as_bytes();
            !equal_bytes(m.as_str().as_bytes(), placeholder)
        },
        None => false,
    }
}

/// Collect the candidate mints of the post list, in encounter order.
fn collect_candidates(pre: &Vec<TokenBalance>, post: &Vec<TokenBalance>) -> (cands: Vec<String>)
    ensures
        views_of(cands@) == candidate_mints(pre@, post@),
{
    let n = post.len();
    let mut cands: Vec<String> = Vec::new();
    let mut i: usize = 0;
    proof {
        assert(views_of(cands@) =~= candidate_mints(pre@, post@.take(0)));
    }
    while i < n
        invariant
            n == post@.len(),
            0 <= i <= n,
            views_of(cands@) == candidate_mints(pre@, post@.take(i as int)),
        decreases n - i,
    {
        let ghost prefix = post@.take(i as int);
        let ghost next_prefix = post@.take(i + 1);
        proof {
            assert(next_prefix.drop_last() =~= prefix);
            assert(next_prefix.last() == post@[i as int]);
        }
        let cand = is_candidate_exec(pre, &post[i]);
        match &post[i].mint {
            Some(m) => {
                if cand {
                    cands.push(m.clone());
                }
            },
            None => {},
        }
        proof {
            assert(views_of(cands@) =~= candidate_mints(pre@, next_prefix));
        }
        i += 1;
    }
    proof {
        assert(post@.take(n as int) =~= post@);
    }
    cands
}

/// If entry `i` is pump-suffixed and no earlier entry is, it is the first.
proof fn lemma_first_pump_at(cands: Seq<Seq<char>>, i: int)
    requires
        0 <= i < cands.len(),
        ends_with_pump(cands[i]),
        forall|k: int| 0 <= k < i ==> !ends_with_pump(#[trigger] cands[k]),
    ensures
        first_pump(cands) == Some(cands[i]),
    decreases i,
{
    if i > 0 {
        lemma_first_pump_at(cands.drop_first(), i - 1);
    }
}

/// If no entry is pump-suffixed, there is no first pump-suffixed entry.
proof fn lemma_first_pump_none(cands: Seq<Seq<char>>)
    requires
        forall|k: int| 0 <= k < cands.len() ==> !ends_with_pump(#[trigger] cands[k]),
    ensures
        first_pump(cands) is None,
    decreases cands.len(),
{
    if cands.len() > 0 {
        lemma_first_pump_none(cands.drop_first());
    }
}

/// The first pump-suffixed entry is a pump-suffixed element of the list.
proof fn lemma_first_pump_some(cands: Seq<Seq<char>>)
    requires
        first_pump(cands) is Some,
    ensures
        first_pump(cands) matches Some(m) ==> ends_with_pump(m) && exists|k: int|
            0 <= k < cands.len() && #[trigger] cands[k] == m,
    decreases cands.len(),
{
    if cands.len() > 0 && !ends_with_pump(cands.first()) {
        lemma_first_pump_some(cands.drop_first());
        assert(first_pump(cands) matches Some(m) ==> exists|k: int|
            0 <= k < cands.len() && #[trigger] cands[k] == m) by {
            if let Some(m) = first_pump(cands.drop_first()) {
                let k = choose|k: int|
                    0 <= k < cands.drop_first().len() && #[trigger] cands.drop_first()[k] == m;
                assert(cands[k + 1] == m);
            }
        }
    }
}

/// Choose the published mint from the candidate list: the first
/// pump-suffixed candidate if any, else the first candidate.
fn choose_mint(cands: &Vec<String>) -> (r: Option<String>)
    ensures
        r is Some <==> chosen_of(views_of(cands@)) is Some,
        r matches Some(m) ==> chosen_of(views_of(cands@)) == Some(m@),
{
    let n = cands.len();
    let ghost vs = views_of(cands@);
    proof {
        assert(vs.len() == n);
    }
    let mut i: usize = 0;
    while i < n
        invariant
            n == cands@.len(),
            vs == views_of(cands@),
            vs.len() == n,
            0 <= i <= n,
            forall|k: int| 0 <= k < i ==> !ends_with_pump(#[trigger] vs[k]),
        decreases n - i,
    {
        let m = &cands[i];
        if ends_with_bytes(m.as_str().as_bytes(), "pump".as_bytes()) {
            proof {
                assert(vs[i as int] == m@);
                lemma_first_pump_at(vs, i as int);
            }
            return Some(m.clone());
        }
        proof {
            assert(vs[i as int] == m@);
        }
        i += 1;
    }
    proof {
        lemma_first_pump_none(vs);
    }
    if cands.len() > 0 {
        let m = &cands[0];
        proof {
            assert(vs[0] == m@);
        }
        Some(m.clone())
    } else {
        None
    }
}

// ---------------------------------------------------------------------------
// The classifier itself.
// ---------------------------------------------------------------------------

/// The transaction envelope of an update, when it is a transaction update
/// that carries one.
pub open spec fn update_tx(u: RawUpdate) -> Option<TransactionInfo> {
    match u {
        RawUpdate::Transaction(t) => t.transaction,
        RawUpdate::Other => None,
    }
}

/// The slot of a transaction update.
pub open spec fn update_slot(u: RawUpdate) -> u64 {
    match u {
        RawUpdate::Transaction(t) => t.slot,
        RawUpdate::Other => 0,
    }
}

/// The raw log text of an update, when present.
pub open spec fn update_logs(u: RawUpdate) -> Option<Seq<u8>> {
    match update_tx(u) {
        Some(tx) => match tx.meta {
            Some(meta) => match meta.log_messages {
                Some(logs) => Some(logs@),
                None => None,
            },
            None => None,
        },
        None => None,
    }
}

/// The envelope's logs exist and match the creation pattern.
pub open spec fn tx_logs_create(tx: TransactionInfo) -> bool {
    match tx.meta {
        Some(meta) => match meta.log_messages {
            Some(logs) => logs_match(logs@),
            None => false,
        },
        None => false,
    }
}

/// The signature bytes: the direct field when non-empty, else the first
/// entry of the embedded signature list, when that is non-empty.
pub open spec fn sig_bytes(tx: TransactionInfo) -> Option<Seq<u8>> {
    if tx.signature@.len() > 0 {
        Some(tx.signature@)
    } else {
        match tx.transaction {
            Some(d) => if d.signatures@.len() > 0 && d.signatures@[0]@.len() > 0 {
                Some(d.signatures@[0]@)
            } else {
                None
            },
            None => None,
        }
    }
}

/// The creator bytes: the first entry of the message's account-keys list,
/// when that is non-empty.
pub open spec fn creator_bytes(tx: TransactionInfo) -> Option<Seq<u8>> {
    match tx.transaction {
        Some(d) => match d.message {
            Some(msg) => if msg.account_keys@.len() > 0 && msg.account_keys@[0]@.len() > 0 {
                Some(msg.account_keys@[0]@)
            } else {
                None
            },
            None => None,
        },
        None => None,
    }
}

/// The mint chosen from the envelope's token balances.
pub open spec fn tx_mint(tx: TransactionInfo) -> Option<Seq<char>> {
    match tx.meta {
        Some(meta) => chosen_of(
            candidate_mints(meta.pre_token_balances@, meta.post_token_balances@),
        ),
        None => None,
    }
}

/// A transaction envelope classifies when its logs match and all three
/// fields can be extracted.
pub open spec fn tx_matches(tx: TransactionInfo) -> bool {
    &&& tx_logs_create(tx)
    &&& sig_bytes(tx) is Some
    &&& creator_bytes(tx) is Some
    &&& tx_mint(tx) is Some
}

/// An update classifies when it is a transaction update whose envelope
/// classifies.
pub open spec fn spec_is_match(u: RawUpdate) -> bool {
    match update_tx(u) {
        Some(tx) => tx_matches(tx),
        None => false,
    }
}

/// Classify one raw update: `Some` exactly when the update is a creation
/// transaction of the target program, and then every field of the event is
/// pinned down — base-58 of the signature and creator bytes, the chosen
/// mint, and the update's slot — with no field ever empty.
pub fn classify(update: &RawUpdate) -> (r: Option<CreateEvent>)
    ensures
        r is Some <==> spec_is_match(*update),
        r matches Some(e) ==> {
            &&& update_tx(*update) matches Some(tx)
            &&& sig_bytes(tx) matches Some(sb) && e.signature@ == base58_of(sb)
            &&& creator_bytes(tx) matches Some(cb) && e.creator_address@ == base58_of(cb)
            &&& tx_mint(tx) == Some(e.mint_address@)
            &&& e.slot == update_slot(*update)
            &&& e.signature@.len() > 0
            &&& e.creator_address@.len() > 0
            &&& e.mint_address@.len() > 0
            &&& forall|i: int|
                0 <= i < e.signature@.len() ==> is_base58_char(#[trigger] e.signature@[i])
            &&& forall|i: int|
                0 <= i < e.creator_address@.len() ==> is_base58_char(
                    #[trigger] e.creator_address@[i],
                )
        },
{
    let tu = match update {
        RawUpdate::Transaction(t) => t,
        RawUpdate::Other => {
            return None;
        },
    };
    let tx = match &tu.transaction {
        Some(tx) => tx,
        None => {
            return None;
        },
    };
    let create_ok = match &tx.meta {
        Some(meta) => match &meta.log_messages {
            Some(logs) => logs_are_create(logs.as_slice()),
            None => false,
        },
        None => false,
    };
    if !create_ok {
        return None;
    }
    let signature: String = if tx.signature.len() > 0 {
        encode_base58(tx.signature.as_slice())
    } else {
        match &tx.transaction {
            Some(d) => {
                if d.signatures.len() > 0 && d.signatures[0].len() > 0 {
                    encode_base58(d.signatures[0].as_slice())
                } else {
                    return None;
                }
            },
            None => {
                return None;
            },
        }
    };
    let creator_address: String = match &tx.transaction {
        Some(d) => match &d.message {
            Some(msg) => {
                if msg.account_keys.len() > 0 && msg.account_keys[0].len() > 0 {
                    encode_base58(msg.account_keys[0].as_slice())
                } else {
                    return None;
                }
            },
            None => {
                return None;
            },
        },
        None => {
            return None;
        },
    };
    let mint_address: String = match &tx.meta {
        Some(meta) => {
            let cands = collect_candidates(&meta.pre_token_balances, &meta.post_token_balances);
            proof {
                lemma_mint_choice(meta.pre_token_balances@, meta.post_token_balances@);
            }
            match choose_mint(&cands) {
                Some(m) => m,
                None => {
                    return None;
                },
            }
        },
        None => {
            return None;
        },
    };
    Some(CreateEvent { signature, mint_address, creator_address, slot: tu.slot })
}

// ---------------------------------------------------------------------------
// Laws of the classifier.
// ---------------------------------------------------------------------------

/// An update whose logs never mention the target program's address — or
/// that has no logs at all — never classifies.
pub proof fn lemma_no_program_marker_no_match(u: RawUpdate)
    requires
        update_logs(u) matches Some(logs) ==> !contains_sub(logs, program_marker()),
    ensures
        !spec_is_match(u),
{
}

/// Logs that carry both the plain-creation marker and the V2 marker still
/// match, through the V2 branch alone: the presence of the V2 marker
/// disables the plain branch, so the two branches never both fire.
pub proof fn lemma_both_markers_match_via_v2(logs: Seq<u8>)
    requires
        valid_utf8(logs),
        contains_sub(logs, program_marker()),
        contains_sub(logs, create_marker()),
        contains_sub(logs, create_v2_marker()),
    ensures
        logs_match(logs),
        !(contains_sub(logs, create_marker()) && !contains_sub(logs, create_v2_marker())),
{
}

/// Every candidate mint is non-empty, new (absent from the pre list), and
/// not the placeholder address.
proof fn lemma_candidates_sound(pre: Seq<TokenBalance>, post: Seq<TokenBalance>)
    ensures
        forall|j: int|
            0 <= j < candidate_mints(pre, post).len() ==> !mint_in_pre(
                pre,
                #[trigger] candidate_mints(pre, post)[j],
            ) && !is_placeholder(candidate_mints(pre, post)[j]) && candidate_mints(
                pre,
                post,
            )[j].len() > 0,
    decreases post.len(),
{
    if post.len() > 0 {
        lemma_candidates_sound(pre, post.drop_last());
        let rest = candidate_mints(pre, post.drop_last());
        let all = candidate_mints(pre, post);
        if is_candidate(pre, post.last()) {
            assert(all == rest.push(post.last().mint.unwrap()@));
            assert(forall|j: int| 0 <= j < rest.len() ==> #[trigger] all[j] == rest[j]);
            assert(all[all.len() - 1] == post.last().mint.unwrap()@);
        }
    }
}

/// Mint selection never picks a mint present in the pre list, the
/// placeholder, or an empty mint; a pump-suffixed candidate wins whenever
/// one exists; with none, the first candidate in encounter order is picked.
pub proof fn lemma_mint_choice(pre: Seq<TokenBalance>, post: Seq<TokenBalance>)
    ensures
        chosen_of(candidate_mints(pre, post)) matches Some(m) ==> !mint_in_pre(pre, m)
            && !is_placeholder(m) && m.len() > 0,
        (exists|k: int|
            0 <= k < candidate_mints(pre, post).len() && ends_with_pump(
                #[trigger] candidate_mints(pre, post)[k],
            )) ==> (chosen_of(candidate_mints(pre, post)) matches Some(m) && ends_with_pump(m)),
        (forall|k: int|
            0 <= k < candidate_mints(pre, post).len() ==> !ends_with_pump(
                #[trigger] candidate_mints(pre, post)[k],
            )) && candidate_mints(pre, post).len() > 0 ==> chosen_of(candidate_mints(pre, post))
            == Some(candidate_mints(pre, post)[0]),
{
    let cands = candidate_mints(pre, post);
    lemma_candidates_sound(pre, post);
    if let Some(m) = first_pump(cands) {
        lemma_first_pump_some(cands);
    } else {
        lemma_first_pump_none_converse(cands);
    }
    if exists|k: int| 0 <= k < cands.len() && ends_with_pump(#[trigger] cands[k]) {
        if first_pump(cands) is None {
            lemma_first_pump_none_converse(cands);
        }
    }
    if (forall|k: int| 0 <= k < cands.len() ==> !ends_with_pump(#[trigger] cands[k]))
        && cands.len() > 0 {
        lemma_first_pump_none(cands);
    }
}

/// If `first_pump` found nothing, no entry is pump-suffixed.
proof fn lemma_first_pump_none_converse(cands: Seq<Seq<char>>)
    requires
        first_pump(cands) is None,
    ensures
        forall|k: int| 0 <= k < cands.len() ==> !ends_with_pump(#[trigger] cands[k]),
    decreases cands.len(),
{
    if cands.len() > 0 {
        lemma_first_pump_none_converse(cands.drop_first());
        assert(forall|k: int| 1 <= k < cands.len() ==> cands.drop_first()[k - 1] == #[trigger] cands[k]);
    }
}

/// When every mint named in the post list already sits in the pre list,
/// there are no candidates at all.
proof fn lemma_all_old_no_candidates(pre: Seq<TokenBalance>, post: Seq<TokenBalance>)
    requires
        forall|j: int|
            0 <= j < post.len() ==> (#[trigger] post[j].mint matches Some(m) ==> mint_in_pre(
                pre,
                m@,
            )),
    ensures
        candidate_mints(pre, post) == Seq::<Seq<char>>::empty(),
    decreases post.len(),
{
    if post.len() > 0 {
        assert(forall|j: int|
            0 <= j < post.drop_last().len() ==> #[trigger] post.drop_last()[j] == post[j]);
        lemma_all_old_no_candidates(pre, post.drop_last());
    }
}

/// An update whose post-balance list names no mint absent from the pre list
/// yields no event, however well its logs match.
pub proof fn lemma_no_new_mint_no_match(u: RawUpdate)
    requires
        update_tx(u) matches Some(tx) && tx.meta matches Some(meta) ==> forall|j: int|
            0 <= j < meta.post_token_balances@.len() ==> (
            #[trigger] meta.post_token_balances@[j].mint matches Some(m) ==> mint_in_pre(
                meta.pre_token_balances@,
                m@,
            )),
    ensures
        !spec_is_match(u),
{
    if let Some(tx) = update_tx(u) {
        if let Some(meta) = tx.meta {
            lemma_all_old_no_candidates(meta.pre_token_balances@, meta.post_token_balances@);
        }
    }
}

} // verus!
