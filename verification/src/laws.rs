//! The laws of the store's command order and of the wire protocol.
//!
//! The service processes commands one at a time, in the order the queue
//! delivered them; [`run_state`] folds a whole command sequence over the
//! service state. The proofs here state what that order guarantees: a put is
//! observed by the get that follows it, a key never put is never found, the
//! last put on a key wins, and a close leaves every earlier put applied and
//! the intake closed for good. The wire laws tie the codec in: `set` and
//! `get` lines built from whole words decode to exactly the commands they
//! spell, and the response lines are terminated and pairwise telling apart.

use vstd::prelude::*;

use crate::codec::CommandModel;
use crate::codec::OutcomeModel;
use crate::codec::decode_spec;
use crate::codec::encode_spec;
use crate::codec::error_line_spec;
use crate::codec::is_wspace;
use crate::codec::scan_tokens;
use crate::codec::tokens_of;
use crate::codec::ErrorModel;
use crate::service::ServiceModel;
use crate::service::run_state;
use crate::service::step_outcome;
use crate::service::step_state;

verus! {

/// A word of the wire grammar: at least one character, none of them
/// whitespace.
pub open spec fn is_word(t: Seq<char>) -> bool {
    t.len() > 0 && forall|i: int| 0 <= i < t.len() ==> !is_wspace(t[i])
}

proof fn lemma_scan_append_word(s: Seq<char>, t: Seq<char>)
    requires
        forall|i: int| 0 <= i < t.len() ==> !is_wspace(t[i]),
    ensures
        scan_tokens(s + t).0 == scan_tokens(s).0,
        scan_tokens(s + t).1 == scan_tokens(s).1 + t,
    decreases t.len(),
{
    if t.len() == 0 {
        assert(s + t =~= s);
        assert(scan_tokens(s).1 + t =~= scan_tokens(s).1);
    } else {
        assert(forall|i: int|
            0 <= i < t.drop_last().len() ==> !is_wspace(t.drop_last()[i]));
        lemma_scan_append_word(s, t.drop_last());
        assert((s + t).drop_last() =~= s + t.drop_last());
        assert((s + t).last() == t.last());
        assert((scan_tokens(s).1 + t.drop_last()).push(t.last()) =~= scan_tokens(s).1 + t);
    }
}

proof fn lemma_scan_append_space(s: Seq<char>, w: char)
    requires
        is_wspace(w),
    ensures
        scan_tokens(s + seq![w]).0 == tokens_of(s),
        scan_tokens(s + seq![w]).1 == Seq::<char>::empty(),
{
    assert((s + seq![w]).drop_last() =~= s);
    assert((s + seq![w]).last() == w);
}

proof fn lemma_scan_of_verb_and_space(verb: Seq<char>, padded: Seq<char>)
    requires
        is_word(verb),
        padded == verb + seq![' '],
    ensures
        scan_tokens(padded).0 == seq![verb],
        scan_tokens(padded).1 == Seq::<char>::empty(),
        tokens_of(padded) == seq![verb],
{
    assert(Seq::<char>::empty() + verb =~= verb);
    lemma_scan_append_word(Seq::<char>::empty(), verb);
    assert(scan_tokens(Seq::<char>::empty()).1 + verb =~= verb);
    lemma_scan_append_space(verb, ' ');
    assert(scan_tokens(verb).0.push(verb) =~= seq![verb]);
}

/// Law, wire form of the round trip: a `set` line carrying the words `k` and
/// `v` decodes to exactly the put of `k` to `v`. (A value whose spacing is
/// not single spaces is rejoined with single spaces by the codec, so only
/// whole words round-trip literally.)
pub proof fn lemma_set_line_decodes(k: Seq<char>, v: Seq<char>)
    requires
        is_word(k),
        is_word(v),
    ensures
        decode_spec("set "@ + k + " "@ + v) == Ok::<CommandModel, ErrorModel>(
            CommandModel::Put { key: k, value: v },
        ),
{
    reveal_strlit("set ");
    reveal_strlit("set");
    reveal_strlit(" ");
    let line = "set "@ + k + " "@ + v;
    assert(is_word("set"@));
    assert("set "@ =~= "set"@ + seq![' ']);
    lemma_scan_of_verb_and_space("set"@, "set "@);
    lemma_scan_append_word("set "@, k);
    assert(Seq::<char>::empty() + k =~= k);
    assert("set "@ + k + " "@ =~= ("set "@ + k) + seq![' ']);
    lemma_scan_append_space("set "@ + k, ' ');
    assert(tokens_of("set "@ + k) =~= seq!["set"@, k]);
    lemma_scan_append_word("set "@ + k + " "@, v);
    assert(Seq::<char>::empty() + v =~= v);
    let ts = tokens_of(line);
    assert(ts =~= seq!["set"@, k, v]);
    assert(ts.skip(2) =~= seq![v]);
}

/// Law, wire form: a `get` line carrying the word `k` decodes to exactly the
/// get of `k`.
pub proof fn lemma_get_line_decodes(k: Seq<char>)
    requires
        is_word(k),
    ensures
        decode_spec("get "@ + k) == Ok::<CommandModel, ErrorModel>(CommandModel::Get { key: k }),
{
    reveal_strlit("get ");
    reveal_strlit("get");
    reveal_strlit("set");
    reveal_strlit("SET");
    reveal_strlit("GET");
    reveal_strlit(" ");
    let line = "get "@ + k;
    assert(is_word("get"@));
    assert("get "@ =~= "get"@ + seq![' ']);
    lemma_scan_of_verb_and_space("get"@, "get "@);
    lemma_scan_append_word("get "@, k);
    assert(Seq::<char>::empty() + k =~= k);
    let ts = tokens_of(line);
    assert(ts =~= seq!["get"@, k]);
    assert("get"@ != "set"@ && "get"@ != "SET"@ && "get"@ != "GET"@) by {
        assert("get"@[0] == 'g' && "set"@[0] == 's' && "SET"@[0] == 'S' && "GET"@[0] == 'G');
    }
}

/// Law: a whole round trip over the wire. The `set` line puts `v` under `k`,
/// and the `get` line that follows is answered with exactly `v`, whatever
/// state the service was in.
pub proof fn lemma_wire_round_trip(s: ServiceModel, k: Seq<char>, v: Seq<char>)
    requires
        is_word(k),
        is_word(v),
    ensures
        decode_spec("set "@ + k + " "@ + v) == Ok::<CommandModel, ErrorModel>(
            CommandModel::Put { key: k, value: v },
        ),
        decode_spec("get "@ + k) == Ok::<CommandModel, ErrorModel>(CommandModel::Get { key: k }),
        step_outcome(
            step_state(s, CommandModel::Put { key: k, value: v }),
            CommandModel::Get { key: k },
        ) == OutcomeModel::Value(v),
{
    lemma_set_line_decodes(k, v);
    lemma_get_line_decodes(k);
    lemma_put_then_get(s, k, v);
}

/// Law: every response line is terminated by the line delimiter.
pub proof fn lemma_response_line_terminated(o: OutcomeModel)
    ensures
        encode_spec(o).len() >= 2,
        encode_spec(o).skip(encode_spec(o).len() - 2) == "\r\n"@,
{
    reveal_strlit("response: ok\r\n");
    reveal_strlit("response: value ");
    reveal_strlit("response: not-found ");
    reveal_strlit("\r\n");
    match o {
        OutcomeModel::Done => {
            assert(encode_spec(o).skip(encode_spec(o).len() - 2) =~= "\r\n"@);
        },
        OutcomeModel::Value(_) => {
            assert(encode_spec(o).skip(encode_spec(o).len() - 2) =~= "\r\n"@);
        },
        OutcomeModel::NotFound(_) => {
            assert(encode_spec(o).skip(encode_spec(o).len() - 2) =~= "\r\n"@);
        },
    }
}

/// Law: the response lines tell the four kinds of reply apart from the line
/// alone, whatever values or keys they carry: the three outcome forms differ
/// pairwise, and no outcome line is a bad-request line.
pub proof fn lemma_response_lines_distinct(o1: OutcomeModel, o2: OutcomeModel, e: ErrorModel)
    ensures
        o1 is Done && o2 is Value ==> encode_spec(o1) != encode_spec(o2),
        o1 is Done && o2 is NotFound ==> encode_spec(o1) != encode_spec(o2),
        o1 is Value && o2 is NotFound ==> encode_spec(o1) != encode_spec(o2),
        encode_spec(o1) != error_line_spec(e),
{
    reveal_strlit("response: ok\r\n");
    reveal_strlit("response: value ");
    reveal_strlit("response: not-found ");
    reveal_strlit("bad request - ");
    reveal_strlit("bad request - unknown verb: ");
    assert(encode_spec(o1)[0] == 'r');
    assert(error_line_spec(e)[0] == 'b');
    if o1 is Done && o2 is Value {
        assert(encode_spec(o1)[10] == 'o' && encode_spec(o2)[10] == 'v');
    }
    if o1 is Done && o2 is NotFound {
        assert(encode_spec(o1)[10] == 'o' && encode_spec(o2)[10] == 'n');
    }
    if o1 is Value && o2 is NotFound {
        assert(encode_spec(o1)[10] == 'v' && encode_spec(o2)[10] == 'n');
    }
}

/// Whether `c` puts a value for key `k`.
pub open spec fn puts_key(c: CommandModel, k: Seq<char>) -> bool {
    c matches CommandModel::Put { key, .. } && key == k
}

/// No command of `cs` puts a value for key `k`.
pub open spec fn never_put(cs: Seq<CommandModel>, k: Seq<char>) -> bool {
    forall|i: int| 0 <= i < cs.len() ==> !puts_key(cs[i], k)
}

/// The value of the last put on key `k` in `cs`, if there is one.
pub open spec fn last_put(cs: Seq<CommandModel>, k: Seq<char>) -> Option<Seq<char>>
    decreases cs.len(),
{
    if cs.len() == 0 {
        None
    } else {
        match cs.last() {
            CommandModel::Put { key, value } => if key == k {
                Some(value)
            } else {
                last_put(cs.drop_last(), k)
            },
            _ => last_put(cs.drop_last(), k),
        }
    }
}

/// Law: a put followed at once by a get of the same key returns exactly the
/// value put, whatever state the service was in.
pub proof fn lemma_put_then_get(s: ServiceModel, key: Seq<char>, value: Seq<char>)
    ensures
        step_outcome(
            step_state(s, CommandModel::Put { key, value }),
            CommandModel::Get { key },
        ) == OutcomeModel::Value(value),
{
}

/// Law: of two puts on the same key, the later one wins: the get that
/// follows them returns the second value.
pub proof fn lemma_overwrite(s: ServiceModel, key: Seq<char>, v1: Seq<char>, v2: Seq<char>)
    ensures
        step_outcome(
            step_state(step_state(s, CommandModel::Put { key, value: v1 }), CommandModel::Put { key, value: v2 }),
            CommandModel::Get { key },
        ) == OutcomeModel::Value(v2),
{
}

/// After a run, the value at a key is the value of the last put on that key;
/// a key never put keeps what the starting state had for it.
pub proof fn lemma_run_lookup(s: ServiceModel, cs: Seq<CommandModel>, k: Seq<char>)
    ensures
        match last_put(cs, k) {
            Some(v) => run_state(s, cs).map.contains_key(k) && run_state(s, cs).map[k] == v,
            None => run_state(s, cs).map.contains_key(k) == s.map.contains_key(k) && (
            s.map.contains_key(k) ==> run_state(s, cs).map[k] == s.map[k]),
        },
    decreases cs.len(),
{
    if cs.len() > 0 {
        lemma_run_lookup(s, cs.drop_last(), k);
    }
}

proof fn lemma_never_put_no_last(cs: Seq<CommandModel>, k: Seq<char>)
    requires
        never_put(cs, k),
    ensures
        last_put(cs, k) is None,
    decreases cs.len(),
{
    if cs.len() > 0 {
        assert(!puts_key(cs[cs.len() - 1], k));
        assert(forall|i: int| 0 <= i < cs.drop_last().len() ==> cs.drop_last()[i] == cs[i]);
        lemma_never_put_no_last(cs.drop_last(), k);
    }
}

/// Law: a get of a key that no command of the run ever put, starting from
/// the empty store, returns not-found with that key.
pub proof fn lemma_never_put_not_found(cs: Seq<CommandModel>, k: Seq<char>)
    requires
        never_put(cs, k),
    ensures
        step_outcome(run_state(ServiceModel::init(), cs), CommandModel::Get { key: k })
            == OutcomeModel::NotFound(k),
{
    lemma_never_put_no_last(cs, k);
    lemma_run_lookup(ServiceModel::init(), cs, k);
}

proof fn lemma_put_gives_last(cs: Seq<CommandModel>, k: Seq<char>)
    requires
        exists|i: int| 0 <= i < cs.len() && puts_key(cs[i], k),
    ensures
        last_put(cs, k) is Some,
    decreases cs.len(),
{
    if !puts_key(cs.last(), k) {
        let i = choose|i: int| 0 <= i < cs.len() && puts_key(cs[i], k);
        assert(cs.drop_last()[i] == cs[i]);
        lemma_put_gives_last(cs.drop_last(), k);
    }
}

proof fn lemma_last_is_put(cs: Seq<CommandModel>, k: Seq<char>)
    requires
        last_put(cs, k) is Some,
    ensures
        exists|i: int|
            0 <= i < cs.len() && cs[i] == (CommandModel::Put { key: k, value: last_put(cs, k)->0 }),
    decreases cs.len(),
{
    if puts_key(cs.last(), k) {
        assert(cs[cs.len() - 1] == (CommandModel::Put { key: k, value: last_put(cs, k)->0 }));
    } else {
        lemma_last_is_put(cs.drop_last(), k);
        let i = choose|i: int|
            0 <= i < cs.drop_last().len() && cs.drop_last()[i] == (CommandModel::Put {
                key: k,
                value: last_put(cs.drop_last(), k)->0,
            });
        assert(cs[i] == (CommandModel::Put { key: k, value: last_put(cs, k)->0 }));
    }
}

/// Law: puts are never mixed or lost. However the queue interleaved the
/// producers' commands, the final value of a key that was put at least once
/// is exactly the value of the last put on it — a value some command
/// submitted whole, never a mixture.
pub proof fn lemma_serialization(cs: Seq<CommandModel>, k: Seq<char>)
    requires
        exists|i: int| 0 <= i < cs.len() && puts_key(cs[i], k),
    ensures
        run_state(ServiceModel::init(), cs).map.contains_key(k),
        Some(run_state(ServiceModel::init(), cs).map[k]) == last_put(cs, k),
        exists|i: int|
            0 <= i < cs.len() && cs[i] == (CommandModel::Put {
                key: k,
                value: run_state(ServiceModel::init(), cs).map[k],
            }),
{
    lemma_put_gives_last(cs, k);
    lemma_run_lookup(ServiceModel::init(), cs, k);
    lemma_last_is_put(cs, k);
}

/// Processing a concatenation is processing the parts in turn.
pub proof fn lemma_run_concat(s: ServiceModel, a: Seq<CommandModel>, b: Seq<CommandModel>)
    ensures
        run_state(s, a + b) == run_state(run_state(s, a), b),
    decreases b.len(),
{
    if b.len() == 0 {
        assert(a + b =~= a);
    } else {
        assert((a + b).drop_last() =~= a + b.drop_last());
        lemma_run_concat(s, a, b.drop_last());
    }
}

/// Once the intake is closed, no later command reopens it.
pub proof fn lemma_closed_stays(s: ServiceModel, cs: Seq<CommandModel>)
    requires
        s.closed,
    ensures
        run_state(s, cs).closed,
    decreases cs.len(),
{
    if cs.len() > 0 {
        lemma_closed_stays(s, cs.drop_last());
    }
}

proof fn lemma_open_without_close(s: ServiceModel, cs: Seq<CommandModel>)
    requires
        !s.closed,
        forall|i: int| 0 <= i < cs.len() ==> !(cs[i] is Close),
    ensures
        !run_state(s, cs).closed,
    decreases cs.len(),
{
    if cs.len() > 0 {
        assert(forall|i: int| 0 <= i < cs.drop_last().len() ==> cs.drop_last()[i] == cs[i]);
        lemma_open_without_close(s, cs.drop_last());
    }
}

/// Law: a close queued behind other commands takes effect only after they
/// are applied, and for good. Up to the close the intake is open; from the
/// step that processes the close on, it stays closed; and when the close is
/// processed, the store holds, for every key, exactly the last value put
/// ahead of the close.
pub proof fn lemma_shutdown_ordering(cs: Seq<CommandModel>, i: int, k: Seq<char>)
    requires
        0 <= i < cs.len(),
        cs[i] is Close,
        forall|j: int| 0 <= j < i ==> !(cs[j] is Close),
    ensures
        !run_state(ServiceModel::init(), cs.take(i)).closed,
        forall|j: int| i < j <= cs.len() ==> run_state(ServiceModel::init(), cs.take(j)).closed,
        run_state(ServiceModel::init(), cs.take(i + 1)).map == run_state(
            ServiceModel::init(),
            cs.take(i),
        ).map,
        match last_put(cs.take(i), k) {
            Some(v) => run_state(ServiceModel::init(), cs.take(i + 1)).map.contains_key(k)
                && run_state(ServiceModel::init(), cs.take(i + 1)).map[k] == v,
            None => !run_state(ServiceModel::init(), cs.take(i + 1)).map.contains_key(k),
        },
{
    let init = ServiceModel::init();
    assert(forall|j: int| 0 <= j < cs.take(i).len() ==> !(cs.take(i)[j] is Close));
    lemma_open_without_close(init, cs.take(i));
    assert(cs.take(i + 1).drop_last() =~= cs.take(i));
    assert(run_state(init, cs.take(i + 1)) == step_state(
        run_state(init, cs.take(i)),
        cs[i],
    ));
    assert forall|j: int| i < j <= cs.len() implies run_state(init, cs.take(j)).closed by {
        assert(cs.take(j) =~= cs.take(i + 1) + cs.subrange(i + 1, j));
        lemma_run_concat(init, cs.take(i + 1), cs.subrange(i + 1, j));
        lemma_closed_stays(run_state(init, cs.take(i + 1)), cs.subrange(i + 1, j));
    }
    lemma_run_lookup(init, cs.take(i), k);
}

} // verus!
