//! The engine's laws, stated and proved over the same spec functions its
//! contracts use.
use vstd::prelude::*;
use crate::catalog::{lib_has_signal, lib_signal_of, spn_value_bits};
use crate::dbc::{spec_bo_entry, spec_line_split, spec_name_index, spec_name_index_from};
use crate::decode::{
    spec_decode_frame, spec_decode_from, spec_pad8, spec_signal_result,
};
use crate::errors::CanError;
use crate::spec_extended_id;

verus! {

proof fn lemma_fold_preserves(lines: Seq<Seq<u8>>, m: Map<Seq<u8>, u32>, n: Seq<u8>)
    requires
        forall|k: int|
            0 <= k < lines.len() ==> !(#[trigger] spec_bo_entry(lines[k]) matches Some(e) && e.0
                == n),
    ensures
        spec_name_index_from(lines, m).dom().contains(n) == m.dom().contains(n),
        m.dom().contains(n) ==> spec_name_index_from(lines, m)[n] == m[n],
    decreases lines.len(),
{
    if lines.len() > 0 {
        let m2 = match spec_bo_entry(lines[0]) {
            Some(e) => m.insert(e.0, e.1),
            None => m,
        };
        assert(forall|k: int|
            0 <= k < lines.drop_first().len() ==> lines.drop_first()[k] == lines[k + 1]);
        lemma_fold_preserves(lines.drop_first(), m2, n);
    }
}

proof fn lemma_fold_last_def(lines: Seq<Seq<u8>>, m: Map<Seq<u8>, u32>, i: int, n: Seq<u8>, id: u32)
    requires
        0 <= i < lines.len(),
        spec_bo_entry(lines[i]) == Some((n, id)),
        forall|k: int|
            i < k < lines.len() ==> !(#[trigger] spec_bo_entry(lines[k]) matches Some(e) && e.0
                == n),
    ensures
        spec_name_index_from(lines, m).dom().contains(n),
        spec_name_index_from(lines, m)[n] == id,
    decreases lines.len(),
{
    assert(forall|k: int|
        0 <= k < lines.drop_first().len() ==> lines.drop_first()[k] == lines[k + 1]);
    if i == 0 {
        let m2 = m.insert(n, id);
        lemma_fold_preserves(lines.drop_first(), m2, n);
    } else {
        let m2 = match spec_bo_entry(lines[0]) {
            Some(e) => m.insert(e.0, e.1),
            None => m,
        };
        lemma_fold_last_def(lines.drop_first(), m2, i - 1, n, id);
    }
}

/// Name Index law: whenever a line of the DBC text declares a message — it
/// begins with the `BO_` token, its second token parses as an integer `raw`,
/// its third token with the trailing colon stripped is the name — and no
/// later line declares the same name again, the Name Index maps that name to
/// `raw & 0x1FFFFFFF`.
pub proof fn lemma_name_index_last_declaration(text: Seq<u8>, i: int, n: Seq<u8>, id: u32)
    requires
        0 <= i < spec_line_split(text).len(),
        spec_bo_entry(spec_line_split(text)[i]) == Some((n, id)),
        forall|k: int|
            i < k < spec_line_split(text).len() ==> !(#[trigger] spec_bo_entry(
                spec_line_split(text)[k],
            ) matches Some(e) && e.0 == n),
    ensures
        spec_name_index(text).dom().contains(n),
        spec_name_index(text)[n] == id,
{
    lemma_fold_last_def(spec_line_split(text), Map::<Seq<u8>, u32>::empty(), i, n, id);
}

/// Padding law: a frame payload of at most 8 bytes decodes exactly as the
/// full 8-byte frame obtained by right-padding it with zero bytes, whatever
/// the catalog, index and identifier.
pub proof fn lemma_decode_padding_neutral(
    lib: canparse::pgn::PgnLibrary,
    index: Map<u32, Seq<Seq<u8>>>,
    id: u32,
    data: Seq<u8>,
)
    requires
        data.len() <= 8,
    ensures
        spec_decode_frame(lib, index, id, data) == spec_decode_frame(
            lib,
            index,
            id,
            spec_pad8(data),
        ),
{
    assert(spec_pad8(spec_pad8(data)) =~= spec_pad8(data));
}

/// Unknown-identifier law: a frame whose extended identifier is not a key of
/// the identifier index decodes to `UnknownMessage` — never to a partial or
/// empty successful mapping.
pub proof fn lemma_unknown_message(
    lib: canparse::pgn::PgnLibrary,
    index: Map<u32, Seq<Seq<u8>>>,
    id: u32,
    data: Seq<u8>,
)
    requires
        !index.dom().contains(spec_extended_id(id)),
    ensures
        spec_decode_frame(lib, index, id, data) == Err::<Seq<(Seq<u8>, u32)>, CanError>(
            CanError::UnknownMessage,
        ),
{
}

proof fn lemma_decode_from_det(
    lib1: canparse::pgn::PgnLibrary,
    lib2: canparse::pgn::PgnLibrary,
    names: Seq<Seq<u8>>,
    padded: Seq<u8>,
    acc: Seq<(Seq<u8>, u32)>,
)
    requires
        forall|n: Seq<u8>| #[trigger] lib_has_signal(lib1, n) == lib_has_signal(lib2, n),
        forall|n: Seq<u8>, m: Seq<u8>| #[trigger] spn_value_bits(lib_signal_of(lib1, n), m)
            == spn_value_bits(lib_signal_of(lib2, n), m),
    ensures
        spec_decode_from(lib1, names, padded, acc) == spec_decode_from(lib2, names, padded, acc),
    decreases names.len(),
{
    if names.len() > 0 {
        assert(spec_signal_result(lib1, names[0], padded) == spec_signal_result(
            lib2,
            names[0],
            padded,
        ));
        match spec_signal_result(lib1, names[0], padded) {
            Err(_) => {
            },
            Ok(v) => {
                lemma_decode_from_det(
                    lib1,
                    lib2,
                    names.drop_first(),
                    padded,
                    acc.push((names[0], v)),
                );
            },
        }
    }
}

/// The decode results of a sequence of raw frames, in receipt order.
pub open spec fn spec_decode_trace(
    lib: canparse::pgn::PgnLibrary,
    index: Map<u32, Seq<Seq<u8>>>,
    frames: Seq<(u32, Seq<u8>)>,
) -> Seq<Result<Seq<(Seq<u8>, u32)>, CanError>> {
    frames.map_values(|f: (u32, Seq<u8>)| spec_decode_frame(lib, index, f.0, f.1))
}

/// Determinism law: two sessions whose identifier indices are equal — as the
/// indices of two sessions built from the same DBC text are — and whose
/// catalogs answer every signal lookup and every extraction alike, produce
/// identical result sequences when fed the same sequence of raw frames.
pub proof fn lemma_sessions_deterministic(
    lib1: canparse::pgn::PgnLibrary,
    lib2: canparse::pgn::PgnLibrary,
    index: Map<u32, Seq<Seq<u8>>>,
    frames: Seq<(u32, Seq<u8>)>,
)
    requires
        forall|n: Seq<u8>| #[trigger] lib_has_signal(lib1, n) == lib_has_signal(lib2, n),
        forall|n: Seq<u8>, m: Seq<u8>| #[trigger] spn_value_bits(lib_signal_of(lib1, n), m)
            == spn_value_bits(lib_signal_of(lib2, n), m),
    ensures
        spec_decode_trace(lib1, index, frames) == spec_decode_trace(lib2, index, frames),
{
    assert forall|k: int| 0 <= k < frames.len() implies #[trigger] spec_decode_trace(
        lib1,
        index,
        frames,
    )[k] == spec_decode_trace(lib2, index, frames)[k] by {
        let f = frames[k];
        let ext = spec_extended_id(f.0);
        if index.dom().contains(ext) {
            lemma_decode_from_det(
                lib1,
                lib2,
                index[ext],
                spec_pad8(f.1),
                Seq::<(Seq<u8>, u32)>::empty(),
            );
        }
    }
    assert(spec_decode_trace(lib1, index, frames) =~= spec_decode_trace(lib2, index, frames));
}

} // verus!
