//! The decode pipeline: one raw frame in, named physical values out.
//!
//! The identifier is normalized to its extended form, looked up in the
//! identifier index, the payload is right-padded with zero bytes to the full
//! 8-byte buffer, and every signal of the message is decoded through the
//! catalog. A frame either decodes completely or fails with one typed error;
//! no partial result leaves the pipeline.
use vstd::prelude::*;
use crate::catalog::{lib_has_signal, lib_signal_of, spn_value_bits, Catalog};
use crate::errors::CanError;
use crate::index::CanIndex;
use crate::spec_extended_id;

verus! {

/// The payload buffer handed to every descriptor: the frame's bytes,
/// right-padded with zero bytes to length 8.
pub open spec fn spec_pad8(data: Seq<u8>) -> Seq<u8> {
    if data.len() >= 8 {
        data.take(8)
    } else {
        data + Seq::new((8 - data.len()) as nat, |i: int| 0u8)
    }
}

/// What decoding one signal name against a padded buffer yields: the value's
/// bit pattern, or `UnknownSignal` when the catalog has no descriptor of
/// that name, or `DecodeError` when the descriptor rejects the bytes.
pub open spec fn spec_signal_result(
    lib: canparse::pgn::PgnLibrary,
    name: Seq<u8>,
    padded: Seq<u8>,
) -> Result<u32, CanError> {
    if !lib_has_signal(lib, name) {
        Err(CanError::UnknownSignal)
    } else {
        match spn_value_bits(lib_signal_of(lib, name), padded) {
            None => Err(CanError::DecodeError),
            Some(v) => Ok(v),
        }
    }
}

/// Decoding a list of signal names left to right onto an accumulator; the
/// first failure aborts the whole frame.
pub open spec fn spec_decode_from(
    lib: canparse::pgn::PgnLibrary,
    names: Seq<Seq<u8>>,
    padded: Seq<u8>,
    acc: Seq<(Seq<u8>, u32)>,
) -> Result<Seq<(Seq<u8>, u32)>, CanError>
    decreases names.len(),
{
    if names.len() == 0 {
        Ok(acc)
    } else {
        match spec_signal_result(lib, names[0], padded) {
            Err(e) => Err(e),
            Ok(v) => spec_decode_from(lib, names.drop_first(), padded, acc.push((names[0], v))),
        }
    }
}

/// Decoding a list of signal names against a padded buffer.
pub open spec fn spec_decode_signals(
    lib: canparse::pgn::PgnLibrary,
    names: Seq<Seq<u8>>,
    padded: Seq<u8>,
) -> Result<Seq<(Seq<u8>, u32)>, CanError> {
    spec_decode_from(lib, names, padded, Seq::<(Seq<u8>, u32)>::empty())
}

/// The whole pipeline on one frame: `UnknownMessage` when the extended
/// identifier is not indexed, otherwise the signals of that message decoded
/// in declaration order against the padded payload.
pub open spec fn spec_decode_frame(
    lib: canparse::pgn::PgnLibrary,
    index: Map<u32, Seq<Seq<u8>>>,
    id: u32,
    data: Seq<u8>,
) -> Result<Seq<(Seq<u8>, u32)>, CanError> {
    let ext = spec_extended_id(id);
    if !index.dom().contains(ext) {
        Err(CanError::UnknownMessage)
    } else {
        spec_decode_signals(lib, index[ext], spec_pad8(data))
    }
}

/// The byte-level view of a decoded result list.
pub open spec fn spec_result_view(v: Seq<(String, u32)>) -> Seq<(Seq<u8>, u32)> {
    v.map_values(|p: (String, u32)| (vstd::utf8::encode_utf8(p.0@), p.1))
}

/// Right-pad a frame payload with zero bytes to the 8-byte buffer.
pub fn pad8(data: &[u8]) -> (r: [u8; 8])
    requires
        data@.len() <= 8,
    ensures
        r@ =~= spec_pad8(data@),
{
    let mut buf = [0u8; 8];
    let mut i: usize = 0;
    while i < data.len()
        invariant
            i <= data@.len(),
            data@.len() <= 8,
            buf@.len() == 8,
            forall|j: int| 0 <= j < i ==> buf@[j] == data@[j],
            forall|j: int| i <= j < 8 ==> buf@[j] == 0u8,
        decreases data@.len() - i,
    {
        buf[i] = data[i];
        i = i + 1;
    }
    buf
}

/// Decode one raw frame through the identifier index and the catalog.
pub fn decode_frame(catalog: &Catalog, index: &CanIndex, id: u32, data: &[u8]) -> (r: Result<
    Vec<(String, u32)>,
    CanError,
>)
    requires
        catalog.wf(),
        data@.len() <= 8,
    ensures
        ({
            let spec_r = spec_decode_frame(catalog.lib(), index.model(), id, data@);
            &&& (r matches Ok(v) ==> spec_r matches Ok(s) && spec_result_view(v@) =~= s)
            &&& (r matches Err(e) ==> spec_r == Err::<Seq<(Seq<u8>, u32)>, CanError>(e))
        }),
{
    let ext = crate::extended_id(id);
    let names = match index.get(ext) {
        None => {
            return Err(CanError::UnknownMessage);
        },
        Some(v) => v,
    };
    let padded = pad8(data);
    let ghost lib = catalog.lib();
    let ghost names_model = index.model()[ext];
    proof {
        assert(names_model == CanIndex::spec_names_of(names@));
        assert(names_model.skip(0) =~= names_model);
    }
    let mut out: Vec<(String, u32)> = Vec::new();
    let mut k: usize = 0;
    proof {
        assert(spec_result_view(out@) =~= Seq::<(Seq<u8>, u32)>::empty());
    }
    while k < names.len()
        invariant
            k <= names@.len(),
            catalog.wf(),
            lib == catalog.lib(),
            ext == spec_extended_id(id),
            index.model().dom().contains(ext),
            names_model == index.model()[ext],
            names_model == CanIndex::spec_names_of(names@),
            padded@ == spec_pad8(data@),
            spec_decode_signals(lib, names_model, padded@) == spec_decode_from(
                lib,
                names_model.skip(k as int),
                padded@,
                spec_result_view(out@),
            ),
        decreases names@.len() - k,
    {
        let ghost rest = names_model.skip(k as int);
        proof {
            assert(rest[0] == names_model[k as int]);
            assert(names_model[k as int] == vstd::utf8::encode_utf8(names@[k as int]@));
            assert(rest.drop_first() =~= names_model.skip(k + 1));
        }
        let name_ref = &names[k];
        match catalog.parse_signal(name_ref, &padded) {
            Err(e) => {
                proof {
                    assert(spec_signal_result(lib, rest[0], padded@) == Err::<u32, CanError>(e));
                    assert(spec_decode_from(lib, rest, padded@, spec_result_view(out@)) == Err::<
                        Seq<(Seq<u8>, u32)>,
                        CanError,
                    >(e));
                }
                return Err(e);
            },
            Ok(bits) => {
                let ghost old_out = spec_result_view(out@);
                let owned: String = name_ref.clone();
                out.push((owned, bits));
                proof {
                    assert(spec_result_view(out@) =~~= old_out.push(
                        (vstd::utf8::encode_utf8(names@[k as int]@), bits),
                    ));
                }
            },
        }
        k = k + 1;
    }
    proof {
        assert(names_model.skip(names_model.len() as int) =~= Seq::<Seq<u8>>::empty());
    }
    Ok(out)
}

} // verus!
