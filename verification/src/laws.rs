//! Properties shared by all the parsers.

use vstd::prelude::*;
use vstd::string::StringSliceAdditionalSpecFns;
use crate::types::ErrorKind;
use crate::spec::{
    Step, sp_tag, sp_take, sp_u16, sp_i16, sp_u32, sp_i32, sp_until_nul, sp_nul_terminated_chunk,
    sp_nul_terminated_str, sp_fixed_length_str, sp_count, sp_block_info, sp_key_event,
    sp_last_key_event, block_info_parser, key_event_parser, i16_parser, i32_parser, spec_map_block,
    spec_general_parameters_block, spec_supplier_parameters_block, spec_fixed_parameters_block,
    spec_key_events_block, spec_parse_file, lemma_first_nul, lemma_no_nul, first_zero, nul_free,
    BLOCK_ID_MAP, BLOCK_ID_GENPARAMS, BLOCK_ID_SUPPARAMS, BLOCK_ID_FXDPARAMS,
    BLOCK_ID_KEYEVENTS, entries, entries_before_last,
};

verus! {

/// `b` is what `a` becomes when `t` follows the input: a parsed step parses the same
/// value and leaves `t` after its rest; a failed step says nothing of `b`.
pub open spec fn extends<T>(a: Step<T>, b: Step<T>, t: Seq<u8>) -> bool {
    match a {
        Step::Parsed(rest, v) => b == Step::Parsed(rest + t, v),
        _ => true,
    }
}

/// Bytes after a tag do not change its match.
pub broadcast proof fn law_tag_framing(s: Seq<u8>, pat: Seq<u8>, t: Seq<u8>)
    ensures
        extends(sp_tag(s, pat), #[trigger] sp_tag(s + t, pat), t),
{
    if pat.len() <= s.len() && s.take(pat.len() as int) == pat {
        assert((s + t).take(pat.len() as int) =~= s.take(pat.len() as int));
        assert((s + t).skip(pat.len() as int) =~= s.skip(pat.len() as int) + t);
    }
}

/// Bytes after a fixed-size field do not change it.
pub broadcast proof fn law_take_framing(s: Seq<u8>, n: nat, t: Seq<u8>)
    ensures
        extends(sp_take(s, n), #[trigger] sp_take(s + t, n), t),
{
    if n <= s.len() {
        assert((s + t).take(n as int) =~= s.take(n as int));
        assert((s + t).skip(n as int) =~= s.skip(n as int) + t);
    }
}

/// Bytes after a `u16` field do not change it.
pub broadcast proof fn law_u16_framing(s: Seq<u8>, t: Seq<u8>)
    ensures
        extends(sp_u16(s), #[trigger] sp_u16(s + t), t),
{
    if 2 <= s.len() {
        assert((s + t).skip(2) =~= s.skip(2) + t);
    }
}

/// Bytes after an `i16` field do not change it.
pub broadcast proof fn law_i16_framing(s: Seq<u8>, t: Seq<u8>)
    ensures
        extends(sp_i16(s), #[trigger] sp_i16(s + t), t),
{
    if 2 <= s.len() {
        assert((s + t).skip(2) =~= s.skip(2) + t);
    }
}

/// Bytes after a `u32` field do not change it.
pub broadcast proof fn law_u32_framing(s: Seq<u8>, t: Seq<u8>)
    ensures
        extends(sp_u32(s), #[trigger] sp_u32(s + t), t),
{
    if 4 <= s.len() {
        assert((s + t).skip(4) =~= s.skip(4) + t);
    }
}

/// Bytes after an `i32` field do not change it.
pub broadcast proof fn law_i32_framing(s: Seq<u8>, t: Seq<u8>)
    ensures
        extends(sp_i32(s), #[trigger] sp_i32(s + t), t),
{
    if 4 <= s.len() {
        assert((s + t).skip(4) =~= s.skip(4) + t);
    }
}

/// Bytes after the first zero byte do not move it.
pub broadcast proof fn law_until_nul_framing(s: Seq<u8>, t: Seq<u8>)
    ensures
        extends(sp_until_nul(s), #[trigger] sp_until_nul(s + t), t),
{
    if exists|k: int| 0 <= k < s.len() && s[k] == 0 {
        let k0 = choose|k: int| 0 <= k < s.len() && s[k] == 0;
        let k = first_zero(s, k0);
        let st = s + t;
        assert forall|j: int| 0 <= j < k implies st[j] != 0 by {
            assert(st[j] == s[j]);
        }
        lemma_first_nul(s, k);
        lemma_first_nul(st, k);
        assert(st.skip(k) =~= s.skip(k) + t);
        assert(st.take(k) =~= s.take(k));
    } else {
        lemma_no_nul(s);
    }
}

/// Bytes after a zero-terminated chunk do not change it.
pub broadcast proof fn law_nul_terminated_chunk_framing(s: Seq<u8>, t: Seq<u8>)
    ensures
        extends(sp_nul_terminated_chunk(s), #[trigger] sp_nul_terminated_chunk(s + t), t),
{
    reveal(sp_nul_terminated_chunk);
    law_until_nul_framing(s, t);
    if let Step::Parsed(r, _c) = sp_until_nul(s) {
        law_tag_framing(r, seq![0u8], t);
    }
}

/// Bytes after a zero-terminated string do not change it.
pub broadcast proof fn law_nul_terminated_str_framing(s: Seq<u8>, t: Seq<u8>)
    ensures
        extends(sp_nul_terminated_str(s), #[trigger] sp_nul_terminated_str(s + t), t),
{
    reveal(sp_nul_terminated_str);
    law_nul_terminated_chunk_framing(s, t);
}

/// Bytes after a fixed-length string do not change it.
pub broadcast proof fn law_fixed_length_str_framing(s: Seq<u8>, n: nat, t: Seq<u8>)
    ensures
        extends(sp_fixed_length_str(s, n), #[trigger] sp_fixed_length_str(s + t, n), t),
{
    reveal(sp_fixed_length_str);
    law_take_framing(s, n, t);
}

/// A run of values read by a parser that bytes after its input do not change is not
/// changed by them either.
pub proof fn law_count_framing<T>(p: spec_fn(Seq<u8>) -> Step<T>, s: Seq<u8>, n: nat, t: Seq<u8>)
    requires
        forall|x: Seq<u8>| extends(p(x), #[trigger] p(x + t), t),
    ensures
        extends(sp_count(p, s, n), sp_count(p, s + t, n), t),
    decreases n,
{
    if n > 0 {
        law_count_framing(p, s, (n - 1) as nat, t);
    }
}


/// Bytes after a map entry do not change it.
pub broadcast proof fn law_block_info_framing(s: Seq<u8>, t: Seq<u8>)
    ensures
        extends(sp_block_info(s), #[trigger] sp_block_info(s + t), t),
{
    reveal(sp_block_info);
    broadcast use law_nul_terminated_str_framing, law_u16_framing, law_i32_framing;
}

/// Bytes after a run of map entries do not change it.
pub broadcast proof fn law_block_infos_framing(s: Seq<u8>, n: nat, t: Seq<u8>)
    ensures
        extends(sp_count(block_info_parser(), s, n), #[trigger] sp_count(block_info_parser(), s + t, n), t),
{
    assert forall|x: Seq<u8>| extends(block_info_parser()(x), #[trigger] block_info_parser()(x + t), t) by {
        law_block_info_framing(x, t);
    }
    law_count_framing(block_info_parser(), s, n, t);
}

/// Bytes after a run of `i16` values do not change it.
pub broadcast proof fn law_i16s_framing(s: Seq<u8>, n: nat, t: Seq<u8>)
    ensures
        extends(sp_count(i16_parser(), s, n), #[trigger] sp_count(i16_parser(), s + t, n), t),
{
    assert forall|x: Seq<u8>| extends(i16_parser()(x), #[trigger] i16_parser()(x + t), t) by {
        law_i16_framing(x, t);
    }
    law_count_framing(i16_parser(), s, n, t);
}

/// Bytes after a run of `i32` values do not change it.
pub broadcast proof fn law_i32s_framing(s: Seq<u8>, n: nat, t: Seq<u8>)
    ensures
        extends(sp_count(i32_parser(), s, n), #[trigger] sp_count(i32_parser(), s + t, n), t),
{
    assert forall|x: Seq<u8>| extends(i32_parser()(x), #[trigger] i32_parser()(x + t), t) by {
        law_i32_framing(x, t);
    }
    law_count_framing(i32_parser(), s, n, t);
}

/// Bytes after a key event do not change it.
pub broadcast proof fn law_key_event_framing(s: Seq<u8>, t: Seq<u8>)
    ensures
        extends(sp_key_event(s), #[trigger] sp_key_event(s + t), t),
{
    reveal(sp_key_event);
    broadcast use law_nul_terminated_str_framing, law_fixed_length_str_framing, law_i16_framing,
        law_i32_framing;
}

/// Bytes after a run of key events do not change it.
pub broadcast proof fn law_key_events_framing(s: Seq<u8>, n: nat, t: Seq<u8>)
    ensures
        extends(sp_count(key_event_parser(), s, n), #[trigger] sp_count(key_event_parser(), s + t, n), t),
{
    assert forall|x: Seq<u8>| extends(key_event_parser()(x), #[trigger] key_event_parser()(x + t), t) by {
        law_key_event_framing(x, t);
    }
    law_count_framing(key_event_parser(), s, n, t);
}

/// Bytes after the last key event do not change it.
pub broadcast proof fn law_last_key_event_framing(s: Seq<u8>, t: Seq<u8>)
    ensures
        extends(sp_last_key_event(s), #[trigger] sp_last_key_event(s + t), t),
{
    reveal(sp_last_key_event);
    broadcast use law_key_event_framing, law_u16_framing, law_i32_framing;
}

/// A map block parses the same whatever follows it: the blocks of a file can be read
/// from the whole file or from their own bytes alike.
pub broadcast proof fn law_map_block_framing(s: Seq<u8>, t: Seq<u8>)
    ensures
        extends(spec_map_block(s), #[trigger] spec_map_block(s + t), t),
{
    reveal(spec_map_block);
    broadcast use law_tag_framing, law_u16_framing, law_i32_framing, law_i16_framing,
        law_block_infos_framing;
}

/// A general parameters block parses the same whatever follows it.
pub broadcast proof fn law_general_parameters_block_framing(s: Seq<u8>, t: Seq<u8>)
    ensures
        extends(spec_general_parameters_block(s), #[trigger] spec_general_parameters_block(s + t), t),
{
    reveal(spec_general_parameters_block);
    broadcast use law_tag_framing, law_nul_terminated_str_framing, law_fixed_length_str_framing,
        law_i16_framing, law_i32_framing;
}

/// A supplier parameters block parses the same whatever follows it.
pub broadcast proof fn law_supplier_parameters_block_framing(s: Seq<u8>, t: Seq<u8>)
    ensures
        extends(spec_supplier_parameters_block(s), #[trigger] spec_supplier_parameters_block(s + t), t),
{
    reveal(spec_supplier_parameters_block);
    broadcast use law_tag_framing, law_nul_terminated_str_framing;
}

/// A fixed parameters block parses the same whatever follows it.
pub broadcast proof fn law_fixed_parameters_block_framing(s: Seq<u8>, t: Seq<u8>)
    ensures
        extends(spec_fixed_parameters_block(s), #[trigger] spec_fixed_parameters_block(s + t), t),
{
    reveal(spec_fixed_parameters_block);
    broadcast use law_tag_framing, law_fixed_length_str_framing, law_u16_framing, law_i16_framing,
        law_u32_framing, law_i32_framing, law_i16s_framing, law_i32s_framing;
}

/// A key events block parses the same whatever follows it.
pub broadcast proof fn law_key_events_block_framing(s: Seq<u8>, t: Seq<u8>)
    ensures
        extends(spec_key_events_block(s), #[trigger] spec_key_events_block(s + t), t),
{
    reveal(spec_key_events_block);
    broadcast use law_tag_framing, law_i16_framing, law_key_events_framing, law_last_key_event_framing;
}

/// The leading blocks of a file parse the same whatever follows them.
pub broadcast proof fn law_parse_file_framing(s: Seq<u8>, t: Seq<u8>)
    ensures
        extends(spec_parse_file(s), #[trigger] spec_parse_file(s + t), t),
{
    reveal(spec_parse_file);
    broadcast use law_map_block_framing, law_general_parameters_block_framing,
        law_supplier_parameters_block_framing, law_fixed_parameters_block_framing;
}


/// `r` is a tail of `s`: its last `r.len()` bytes.
pub open spec fn is_tail(r: Seq<u8>, s: Seq<u8>) -> bool {
    r.len() <= s.len() && r == s.subrange(s.len() - r.len(), s.len() as int)
}

/// A parsed step leaves a tail of its input.
pub open spec fn consumes_prefix<T>(s: Seq<u8>, a: Step<T>) -> bool {
    match a {
        Step::Parsed(rest, _) => is_tail(rest, s),
        _ => true,
    }
}

/// A tail of a tail is a tail.
pub broadcast proof fn lemma_tail_trans(a: Seq<u8>, b: Seq<u8>, c: Seq<u8>)
    requires
        #[trigger] is_tail(a, b),
        #[trigger] is_tail(b, c),
    ensures
        is_tail(a, c),
{
    assert(a =~= c.subrange(c.len() - a.len(), c.len() as int));
}

/// Every input is a tail of itself.
pub broadcast proof fn lemma_tail_refl(s: Seq<u8>)
    ensures
        #[trigger] is_tail(s, s),
{
    assert(s =~= s.subrange(0, s.len() as int));
}

/// A matched tag leaves a tail of the input.
pub broadcast proof fn law_tag_consumes(s: Seq<u8>, pat: Seq<u8>)
    ensures
        consumes_prefix(s, #[trigger] sp_tag(s, pat)),
{
    if pat.len() <= s.len() {
        assert(s.skip(pat.len() as int) =~= s.subrange(pat.len() as int, s.len() as int));
    }
}

/// A fixed-size field leaves a tail of the input.
pub broadcast proof fn law_take_consumes(s: Seq<u8>, n: nat)
    ensures
        consumes_prefix(s, #[trigger] sp_take(s, n)),
{
    if n <= s.len() {
        assert(s.skip(n as int) =~= s.subrange(n as int, s.len() as int));
    }
}

/// A `u16` field leaves a tail of the input.
pub broadcast proof fn law_u16_consumes(s: Seq<u8>)
    ensures
        consumes_prefix(s, #[trigger] sp_u16(s)),
{
    if 2 <= s.len() {
        assert(s.skip(2) =~= s.subrange(2, s.len() as int));
    }
}

/// An `i16` field leaves a tail of the input.
pub broadcast proof fn law_i16_consumes(s: Seq<u8>)
    ensures
        consumes_prefix(s, #[trigger] sp_i16(s)),
{
    if 2 <= s.len() {
        assert(s.skip(2) =~= s.subrange(2, s.len() as int));
    }
}

/// A `u32` field leaves a tail of the input.
pub broadcast proof fn law_u32_consumes(s: Seq<u8>)
    ensures
        consumes_prefix(s, #[trigger] sp_u32(s)),
{
    if 4 <= s.len() {
        assert(s.skip(4) =~= s.subrange(4, s.len() as int));
    }
}

/// An `i32` field leaves a tail of the input.
pub broadcast proof fn law_i32_consumes(s: Seq<u8>)
    ensures
        consumes_prefix(s, #[trigger] sp_i32(s)),
{
    if 4 <= s.len() {
        assert(s.skip(4) =~= s.subrange(4, s.len() as int));
    }
}

/// The search for a zero byte leaves a tail of the input.
pub broadcast proof fn law_until_nul_consumes(s: Seq<u8>)
    ensures
        consumes_prefix(s, #[trigger] sp_until_nul(s)),
{
    if exists|k: int| 0 <= k < s.len() && s[k] == 0 {
        let k0 = choose|k: int| 0 <= k < s.len() && s[k] == 0;
        let k = first_zero(s, k0);
        lemma_first_nul(s, k);
        assert(s.skip(k) =~= s.subrange(k, s.len() as int));
    } else {
        lemma_no_nul(s);
    }
}

/// A zero-terminated chunk leaves a tail of the input.
pub broadcast proof fn law_nul_terminated_chunk_consumes(s: Seq<u8>)
    ensures
        consumes_prefix(s, #[trigger] sp_nul_terminated_chunk(s)),
{
    reveal(sp_nul_terminated_chunk);
    broadcast use law_until_nul_consumes, law_tag_consumes, lemma_tail_trans;
}

/// A zero-terminated string leaves a tail of the input.
pub broadcast proof fn law_nul_terminated_str_consumes(s: Seq<u8>)
    ensures
        consumes_prefix(s, #[trigger] sp_nul_terminated_str(s)),
{
    reveal(sp_nul_terminated_str);
    broadcast use law_nul_terminated_chunk_consumes;
}

/// A fixed-length string leaves a tail of the input.
pub broadcast proof fn law_fixed_length_str_consumes(s: Seq<u8>, n: nat)
    ensures
        consumes_prefix(s, #[trigger] sp_fixed_length_str(s, n)),
{
    reveal(sp_fixed_length_str);
    broadcast use law_take_consumes;
}

/// A run of values read by a parser that leaves a tail of its input leaves one too.
pub proof fn law_count_consumes<T>(p: spec_fn(Seq<u8>) -> Step<T>, s: Seq<u8>, n: nat)
    requires
        forall|x: Seq<u8>| consumes_prefix(x, #[trigger] p(x)),
    ensures
        consumes_prefix(s, sp_count(p, s, n)),
    decreases n,
{
    broadcast use lemma_tail_trans, lemma_tail_refl;
    if n > 0 {
        law_count_consumes(p, s, (n - 1) as nat);
    }
}


/// A map entry leaves a tail of the input.
pub broadcast proof fn law_block_info_consumes(s: Seq<u8>)
    ensures
        consumes_prefix(s, #[trigger] sp_block_info(s)),
{
    reveal(sp_block_info);
    broadcast use law_nul_terminated_str_consumes, law_u16_consumes, law_i32_consumes, lemma_tail_trans;
}

/// A run of map entries leaves a tail of the input.
pub broadcast proof fn law_block_infos_consume(s: Seq<u8>, n: nat)
    ensures
        consumes_prefix(s, #[trigger] sp_count(block_info_parser(), s, n)),
{
    assert forall|x: Seq<u8>| consumes_prefix(x, #[trigger] block_info_parser()(x)) by {
        law_block_info_consumes(x);
    }
    law_count_consumes(block_info_parser(), s, n);
}

/// A run of `i16` values leaves a tail of the input.
pub broadcast proof fn law_i16s_consume(s: Seq<u8>, n: nat)
    ensures
        consumes_prefix(s, #[trigger] sp_count(i16_parser(), s, n)),
{
    assert forall|x: Seq<u8>| consumes_prefix(x, #[trigger] i16_parser()(x)) by {
        law_i16_consumes(x);
    }
    law_count_consumes(i16_parser(), s, n);
}

/// A run of `i32` values leaves a tail of the input.
pub broadcast proof fn law_i32s_consume(s: Seq<u8>, n: nat)
    ensures
        consumes_prefix(s, #[trigger] sp_count(i32_parser(), s, n)),
{
    assert forall|x: Seq<u8>| consumes_prefix(x, #[trigger] i32_parser()(x)) by {
        law_i32_consumes(x);
    }
    law_count_consumes(i32_parser(), s, n);
}

/// A key event leaves a tail of the input.
pub broadcast proof fn law_key_event_consumes(s: Seq<u8>)
    ensures
        consumes_prefix(s, #[trigger] sp_key_event(s)),
{
    reveal(sp_key_event);
    broadcast use law_nul_terminated_str_consumes, law_fixed_length_str_consumes, law_i16_consumes,
        law_i32_consumes, lemma_tail_trans;
}

/// A run of key events leaves a tail of the input.
pub broadcast proof fn law_key_events_consume(s: Seq<u8>, n: nat)
    ensures
        consumes_prefix(s, #[trigger] sp_count(key_event_parser(), s, n)),
{
    assert forall|x: Seq<u8>| consumes_prefix(x, #[trigger] key_event_parser()(x)) by {
        law_key_event_consumes(x);
    }
    law_count_consumes(key_event_parser(), s, n);
}

/// The last key event leaves a tail of the input.
pub broadcast proof fn law_last_key_event_consumes(s: Seq<u8>)
    ensures
        consumes_prefix(s, #[trigger] sp_last_key_event(s)),
{
    reveal(sp_last_key_event);
    broadcast use law_key_event_consumes, law_u16_consumes, law_i32_consumes, lemma_tail_trans;
}

/// A parsed map block is a prefix of the input: what is left is a tail of it.
pub broadcast proof fn law_map_block_consumes(s: Seq<u8>)
    ensures
        consumes_prefix(s, #[trigger] spec_map_block(s)),
{
    reveal(spec_map_block);
    broadcast use law_tag_consumes, law_u16_consumes, law_i32_consumes, law_i16_consumes,
        law_block_infos_consume, lemma_tail_trans;
}

/// A parsed general parameters block is a prefix of the input.
pub broadcast proof fn law_general_parameters_block_consumes(s: Seq<u8>)
    ensures
        consumes_prefix(s, #[trigger] spec_general_parameters_block(s)),
{
    reveal(spec_general_parameters_block);
    broadcast use law_tag_consumes, law_nul_terminated_str_consumes, law_fixed_length_str_consumes,
        law_i16_consumes, law_i32_consumes, lemma_tail_trans;
}

/// A parsed supplier parameters block is a prefix of the input.
pub broadcast proof fn law_supplier_parameters_block_consumes(s: Seq<u8>)
    ensures
        consumes_prefix(s, #[trigger] spec_supplier_parameters_block(s)),
{
    reveal(spec_supplier_parameters_block);
    broadcast use law_tag_consumes, law_nul_terminated_str_consumes, lemma_tail_trans;
}

/// A parsed fixed parameters block is a prefix of the input.
pub broadcast proof fn law_fixed_parameters_block_consumes(s: Seq<u8>)
    ensures
        consumes_prefix(s, #[trigger] spec_fixed_parameters_block(s)),
{
    reveal(spec_fixed_parameters_block);
    broadcast use law_tag_consumes, law_fixed_length_str_consumes, law_u16_consumes, law_i16_consumes,
        law_u32_consumes, law_i32_consumes, law_i16s_consume, law_i32s_consume, lemma_tail_trans;
}

/// A parsed key events block is a prefix of the input.
pub broadcast proof fn law_key_events_block_consumes(s: Seq<u8>)
    ensures
        consumes_prefix(s, #[trigger] spec_key_events_block(s)),
{
    reveal(spec_key_events_block);
    broadcast use law_tag_consumes, law_i16_consumes, law_key_events_consume,
        law_last_key_event_consumes, lemma_tail_trans;
}

/// The parsed leading blocks of a file are a prefix of the input.
pub broadcast proof fn law_parse_file_consumes(s: Seq<u8>)
    ensures
        consumes_prefix(s, #[trigger] spec_parse_file(s)),
{
    reveal(spec_parse_file);
    broadcast use law_map_block_consumes, law_general_parameters_block_consumes,
        law_supplier_parameters_block_consumes, law_fixed_parameters_block_consumes, lemma_tail_trans;
}


/// A zero-terminated chunk is read as the bytes before the first zero byte, and that
/// zero byte is consumed with them.
pub proof fn law_null_terminated_chunk_layout(s: Seq<u8>)
    ensures
        sp_nul_terminated_chunk(s) matches Step::Parsed(rest, chunk) ==> {
            &&& nul_free(chunk)
            &&& s == chunk + seq![0u8] + rest
        },
{
    reveal(sp_nul_terminated_chunk);
    if exists|k: int| 0 <= k < s.len() && s[k] == 0 {
        let k0 = choose|k: int| 0 <= k < s.len() && s[k] == 0;
        let k = first_zero(s, k0);
        lemma_first_nul(s, k);
        assert(s.skip(k).take(1) =~= seq![0u8]);
        assert(s =~= s.take(k) + seq![0u8] + s.skip(k).skip(1));
    } else {
        lemma_no_nul(s);
    }
}

/// Bytes without a zero byte, then a zero byte, then anything, are read back as those
/// bytes, the rest following the zero byte.
pub proof fn law_null_terminated_chunk_reads(chunk: Seq<u8>, rest: Seq<u8>)
    requires
        nul_free(chunk),
    ensures
        sp_nul_terminated_chunk(chunk + seq![0u8] + rest) == Step::Parsed(rest, chunk),
{
    reveal(sp_nul_terminated_chunk);
    let s = chunk + seq![0u8] + rest;
    let k = chunk.len() as int;
    assert forall|j: int| 0 <= j < k implies s[j] != 0 by {
        assert(s[j] == chunk[j]);
    }
    lemma_first_nul(s, k);
    assert(s.take(k) =~= chunk);
    assert(s.skip(k).take(1) =~= seq![0u8]);
    assert(s.skip(k).skip(1) =~= rest);
}

/// A run of `n` values holds `n` values.
pub proof fn law_count_len<T>(p: spec_fn(Seq<u8>) -> Step<T>, s: Seq<u8>, n: nat)
    ensures
        sp_count(p, s, n) matches Step::Parsed(_, vs) ==> vs.len() == n,
    decreases n,
{
    if n > 0 {
        law_count_len(p, s, (n - 1) as nat);
    }
}

/// A parsed map block holds one entry for each block that its count announces besides
/// itself. A count below 1 would announce more entries than an input that fits in
/// memory can hold, so no such input parses with one.
pub proof fn law_map_block_entries(s: Seq<u8>)
    requires
        s.len() <= usize::MAX,
    ensures
        spec_map_block(s) matches Step::Parsed(_, m) ==> {
            &&& m.block_count >= 1
            &&& m.block_info.len() == m.block_count - 1
        },
{
    lemma_map_count_least(s);
    reveal(spec_map_block);
    broadcast use law_count_len_block_infos;
}

/// A run of `n` map entries holds `n` entries.
pub broadcast proof fn law_count_len_block_infos(s: Seq<u8>, n: nat)
    ensures
        #[trigger] sp_count(block_info_parser(), s, n) matches Step::Parsed(_, vs) ==> vs.len() == n,
{
    law_count_len(block_info_parser(), s, n);
}

/// A run of `n` key events holds `n` events.
pub broadcast proof fn law_count_len_key_events(s: Seq<u8>, n: nat)
    ensures
        #[trigger] sp_count(key_event_parser(), s, n) matches Step::Parsed(_, vs) ==> vs.len() == n,
{
    law_count_len(key_event_parser(), s, n);
}

/// A run of `n` `i16` values holds `n` values.
pub broadcast proof fn law_count_len_i16s(s: Seq<u8>, n: nat)
    ensures
        #[trigger] sp_count(i16_parser(), s, n) matches Step::Parsed(_, vs) ==> vs.len() == n,
{
    law_count_len(i16_parser(), s, n);
}

/// A run of `n` `i32` values holds `n` values.
pub broadcast proof fn law_count_len_i32s(s: Seq<u8>, n: nat)
    ensures
        #[trigger] sp_count(i32_parser(), s, n) matches Step::Parsed(_, vs) ==> vs.len() == n,
{
    law_count_len(i32_parser(), s, n);
}

/// A parsed key events block holds all announced events: those before the last, and
/// the last. A count below 1 would announce more events than an input that fits in
/// memory can hold, so no such input parses with one.
pub proof fn law_key_events_count(s: Seq<u8>)
    requires
        s.len() <= usize::MAX,
    ensures
        spec_key_events_block(s) matches Step::Parsed(_, k) ==> {
            &&& k.number_of_key_events >= 1
            &&& k.key_events.len() == k.number_of_key_events - 1
        },
{
    lemma_key_events_count_least(s);
    reveal(spec_key_events_block);
    broadcast use law_count_len_key_events;
}

/// A parsed fixed parameters block holds one pulse width and one data point count for
/// each pulse width that it announces. A negative count would announce more values
/// than an input that fits in memory can hold, so no such input parses with one.
pub proof fn law_fixed_parameters_counts(s: Seq<u8>)
    requires
        s.len() <= usize::MAX,
    ensures
        spec_fixed_parameters_block(s) matches Step::Parsed(_, f) ==> {
            &&& f.total_n_pulse_widths_used >= 0
            &&& f.pulse_widths_used.len() == f.total_n_pulse_widths_used
            &&& f.n_data_points_for_pulse_widths_used.len() == f.total_n_pulse_widths_used
        },
{
    lemma_pulse_count_least(s);
    reveal(spec_fixed_parameters_block);
    broadcast use law_count_len_i16s, law_count_len_i32s;
}

/// Input that does not start with a block's name fails with a tag error where it begins.
pub proof fn law_block_names(s: Seq<u8>)
    ensures
        !(s.len() >= BLOCK_ID_MAP.spec_bytes().len() && s.take(BLOCK_ID_MAP.spec_bytes().len() as int) == BLOCK_ID_MAP.spec_bytes())
            ==> spec_map_block(s) == Step::<crate::types::SpecMapBlock>::Failed(s, ErrorKind::Tag),
        !(s.len() >= BLOCK_ID_GENPARAMS.spec_bytes().len() && s.take(BLOCK_ID_GENPARAMS.spec_bytes().len() as int) == BLOCK_ID_GENPARAMS.spec_bytes())
            ==> spec_general_parameters_block(s) == Step::<crate::types::SpecGeneralParametersBlock>::Failed(s, ErrorKind::Tag),
        !(s.len() >= BLOCK_ID_SUPPARAMS.spec_bytes().len() && s.take(BLOCK_ID_SUPPARAMS.spec_bytes().len() as int) == BLOCK_ID_SUPPARAMS.spec_bytes())
            ==> spec_supplier_parameters_block(s) == Step::<crate::types::SpecSupplierParametersBlock>::Failed(s, ErrorKind::Tag),
        !(s.len() >= BLOCK_ID_FXDPARAMS.spec_bytes().len() && s.take(BLOCK_ID_FXDPARAMS.spec_bytes().len() as int) == BLOCK_ID_FXDPARAMS.spec_bytes())
            ==> spec_fixed_parameters_block(s) == Step::<crate::types::SpecFixedParametersBlock>::Failed(s, ErrorKind::Tag),
        !(s.len() >= BLOCK_ID_KEYEVENTS.spec_bytes().len() && s.take(BLOCK_ID_KEYEVENTS.spec_bytes().len() as int) == BLOCK_ID_KEYEVENTS.spec_bytes())
            ==> spec_key_events_block(s) == Step::<crate::types::SpecKeyEvents>::Failed(s, ErrorKind::Tag),
        !(s.len() >= BLOCK_ID_MAP.spec_bytes().len() && s.take(BLOCK_ID_MAP.spec_bytes().len() as int) == BLOCK_ID_MAP.spec_bytes())
            ==> spec_parse_file(s) == Step::<crate::types::SpecSORFile>::Failed(s, ErrorKind::Tag),
{
    reveal(spec_map_block);
    reveal(spec_general_parameters_block);
    reveal(spec_supplier_parameters_block);
    reveal(spec_fixed_parameters_block);
    reveal(spec_key_events_block);
    reveal(spec_parse_file);
}

/// The leading blocks of a file are the map block, then the general, the supplier and
/// the fixed parameters blocks, each read from where the one before it ends; the first
/// of them that does not parse decides the outcome.
pub proof fn law_parse_file_sequence(s: Seq<u8>)
    ensures
        spec_parse_file(s) == spec_map_block(s).and_then(|r1: Seq<u8>, map: crate::types::SpecMapBlock|
            spec_general_parameters_block(r1).and_then(|r2: Seq<u8>, general_parameters: crate::types::SpecGeneralParametersBlock|
            spec_supplier_parameters_block(r2).and_then(|r3: Seq<u8>, supplier_parameters: crate::types::SpecSupplierParametersBlock|
            spec_fixed_parameters_block(r3).and_then(|r4: Seq<u8>, fixed_parameters: crate::types::SpecFixedParametersBlock|
            Step::Parsed(r4, crate::types::SpecSORFile { map, general_parameters, supplier_parameters, fixed_parameters }))))),
{
    reveal(spec_parse_file);
}




/// A parsed step read at least `k` bytes.
pub open spec fn reads_at_least<T>(s: Seq<u8>, a: Step<T>, k: int) -> bool {
    match a {
        Step::Parsed(rest, _) => rest.len() + k <= s.len(),
        _ => true,
    }
}

/// A count below its least value, taken as a `usize`, is more than half of `usize::MAX`.
proof fn lemma_wrapped_counts(c: i16)
    ensures
        c <= 0 && c != i16::MIN ==> entries_before_last(c) * 2 > usize::MAX,
        c < 0 ==> entries(c) * 2 > usize::MAX,
{
    let m: usize = usize::MAX;
    assert(m <= !0usize) by (bit_vector);
    assert(2 * ((!0usize) >> 1) as int + 1 == (!0usize) as int) by (bit_vector);
    assert(c <= 0 && c != i16::MIN ==> ((c - 1) as usize) > ((!0usize) >> 1)) by (bit_vector);
    assert(c < 0 ==> (c as usize) > ((!0usize) >> 1)) by (bit_vector);
}

/// A `u16` field reads two bytes.
pub broadcast proof fn law_u16_reads_two(s: Seq<u8>)
    ensures
        reads_at_least(s, #[trigger] sp_u16(s), 2),
{
}

/// An `i16` field reads two bytes.
pub broadcast proof fn law_i16_reads_two(s: Seq<u8>)
    ensures
        reads_at_least(s, #[trigger] sp_i16(s), 2),
{
}

/// A run of `n` values each of which reads at least `m` bytes reads at least `m * n` bytes.
pub proof fn law_count_reads<T>(p: spec_fn(Seq<u8>) -> Step<T>, s: Seq<u8>, n: nat, m: nat)
    requires
        forall|x: Seq<u8>| reads_at_least(x, #[trigger] p(x), m as int),
    ensures
        reads_at_least(s, sp_count(p, s, n), (m * n) as int),
    decreases n,
{
    if n > 0 {
        law_count_reads(p, s, (n - 1) as nat, m);
        assert(m * (n - 1) + m == m * n) by (nonlinear_arith);
    }
}

/// A map entry reads at least two bytes.
proof fn lemma_block_info_reads_two(s: Seq<u8>)
    ensures
        reads_at_least(s, sp_block_info(s), 2),
{
    reveal(sp_block_info);
    broadcast use law_nul_terminated_str_consumes, law_u16_reads_two, law_i32_consumes;
}

/// A key event reads at least two bytes.
proof fn lemma_key_event_reads_two(s: Seq<u8>)
    ensures
        reads_at_least(s, sp_key_event(s), 2),
{
    reveal(sp_key_event);
    broadcast use law_i16_reads_two, law_nul_terminated_str_consumes, law_fixed_length_str_consumes,
        law_i16_consumes, law_i32_consumes, lemma_tail_trans;
}

/// A map block count below 1 never parses from an input that fits in memory.
proof fn lemma_map_count_least(s: Seq<u8>)
    requires
        s.len() <= usize::MAX,
    ensures
        spec_map_block(s) matches Step::Parsed(_, m) ==> m.block_count >= 1,
{
    if let Step::Parsed(_, m) = spec_map_block(s) {
        lemma_wrapped_counts(m.block_count);
        assert forall|x: Seq<u8>| reads_at_least(x, #[trigger] block_info_parser()(x), 2) by {
            lemma_block_info_reads_two(x);
        }
        assert forall|x: Seq<u8>, n: nat| reads_at_least(x, #[trigger] sp_count(block_info_parser(), x, n), 2 * n as int) by {
            law_count_reads(block_info_parser(), x, n, 2);
        }
        reveal(spec_map_block);
        broadcast use law_tag_consumes, law_u16_consumes, law_i32_consumes, law_i16_consumes,
            lemma_tail_trans;
    }
}

/// A key event count below 1 never parses from an input that fits in memory.
proof fn lemma_key_events_count_least(s: Seq<u8>)
    requires
        s.len() <= usize::MAX,
    ensures
        spec_key_events_block(s) matches Step::Parsed(_, k) ==> k.number_of_key_events >= 1,
{
    if let Step::Parsed(_, k) = spec_key_events_block(s) {
        lemma_wrapped_counts(k.number_of_key_events);
        assert forall|x: Seq<u8>| reads_at_least(x, #[trigger] key_event_parser()(x), 2) by {
            lemma_key_event_reads_two(x);
        }
        assert forall|x: Seq<u8>, n: nat| reads_at_least(x, #[trigger] sp_count(key_event_parser(), x, n), 2 * n as int) by {
            law_count_reads(key_event_parser(), x, n, 2);
        }
        reveal(spec_key_events_block);
        broadcast use law_tag_consumes, law_i16_consumes, lemma_tail_trans;
    }
}

/// A negative pulse width count never parses from an input that fits in memory.
proof fn lemma_pulse_count_least(s: Seq<u8>)
    requires
        s.len() <= usize::MAX,
    ensures
        spec_fixed_parameters_block(s) matches Step::Parsed(_, f) ==> f.total_n_pulse_widths_used >= 0,
{
    if let Step::Parsed(_, f) = spec_fixed_parameters_block(s) {
        lemma_wrapped_counts(f.total_n_pulse_widths_used);
        assert forall|x: Seq<u8>| reads_at_least(x, #[trigger] i16_parser()(x), 2) by {
            law_i16_reads_two(x);
        }
        assert forall|x: Seq<u8>, n: nat| reads_at_least(x, #[trigger] sp_count(i16_parser(), x, n), 2 * n as int) by {
            law_count_reads(i16_parser(), x, n, 2);
        }
        reveal(spec_fixed_parameters_block);
        broadcast use law_tag_consumes, law_fixed_length_str_consumes, law_u16_consumes, law_i16_consumes,
            law_u32_consumes, law_i32_consumes, lemma_tail_trans;
    }
}

} // verus!
