//! The Signal Catalog, an external capability.
//!
//! The catalog library (`canparse`) owns the signal descriptors and the
//! bit-field extraction that turns a payload into a physical value; this
//! module holds the trusted boundary around it. Construction feeds the
//! catalog the same DBC lines the scanner reads, so both lookup indices and
//! the catalog always come from one source. Signals whose bit placement lies
//! outside the 8-byte frame window are withheld from the catalog, because its
//! extractor does not support them; they are likewise left out of the
//! identifier index.
//!
//! The two readers of those lines are not forced to agree entry for entry: a
//! message declaration loose enough for the identifier index (identifier and
//! name alone) but short of the full form the catalog takes, or a signal
//! line whose tail the catalog's own grammar rejects, leaves an indexed name
//! without a descriptor. Decoding such a signal reports the unknown-signal
//! error, the prescribed surfacing of an index/catalog mismatch, rather than
//! a silent skip.
use vstd::prelude::*;
use vstd::string::StringSliceAdditionalSpecFns;
use std::str::FromStr;
use crate::dbc::{
    bo_entry, copy_bytes, parse_u32, sg_entry, spec_id_index, spec_id_index_from, spec_line_split,
    spec_name_index, spec_name_index_from, spec_sg_ok, split_lines, tokens,
};
use crate::index::{CanIndex, NameIndex};

verus! {

#[verifier::external_type_specification]
#[verifier::external_body]
pub struct ExPgnLibrary(canparse::pgn::PgnLibrary);

#[verifier::external_type_specification]
#[verifier::external_body]
pub struct ExSpnDefinition(canparse::pgn::SpnDefinition);

#[verifier::external_type_specification]
#[verifier::external_body]
pub struct ExEntry(canparse::dbc::Entry);

/// Every signal descriptor held by the library has its bit placement inside
/// the 8-byte frame window, so its extractor runs without fault.
pub uninterp spec fn lib_ok(lib: canparse::pgn::PgnLibrary) -> bool;

/// Folding this entry into a library that satisfies [`lib_ok`] runs without
/// fault and preserves [`lib_ok`].
pub uninterp spec fn entry_safe(e: canparse::dbc::Entry) -> bool;

/// The library holds a descriptor under this signal name (given by its UTF-8
/// bytes).
pub uninterp spec fn lib_has_signal(lib: canparse::pgn::PgnLibrary, name: Seq<u8>) -> bool;

/// The descriptor the library yields for this signal name.
pub uninterp spec fn lib_signal_of(
    lib: canparse::pgn::PgnLibrary,
    name: Seq<u8>,
) -> canparse::pgn::SpnDefinition;

/// This descriptor's bit placement lies inside the 8-byte frame window.
pub uninterp spec fn spn_ok(s: canparse::pgn::SpnDefinition) -> bool;

/// What the descriptor's extractor yields on an 8-byte buffer, as the bit
/// pattern of the physical value: a pure function of the descriptor's fields
/// and the bytes.
pub uninterp spec fn spn_value_bits(s: canparse::pgn::SpnDefinition, msg: Seq<u8>) -> Option<u32>;

/// Relies on canparse's `PgnLibrary::default`: an empty library, which holds
/// no signal descriptor at all.
#[verifier::external_body]
fn catalog_empty() -> (r: canparse::pgn::PgnLibrary)
    ensures
        lib_ok(r),
        forall|n: Seq<u8>| !#[trigger] lib_has_signal(r, n),
{
    canparse::pgn::PgnLibrary::default()
}

/// Relies on canparse's `Entry::from_str` (its grammar wants the line
/// terminator included). A line that reads, by this crate's own grammar, as a
/// signal declaration whose bit placement lies inside the frame window can
/// only come back as that signal definition or as an unparsed remainder, and
/// folding either into the library is fault-free.
#[verifier::external_body]
fn parse_line_entry(line: &str) -> (r: Option<canparse::dbc::Entry>)
    ensures
        r matches Some(e) ==> ((line.spec_bytes().len() > 0 && line.spec_bytes().last() == 10
            && spec_sg_ok(line.spec_bytes().drop_last())) ==> entry_safe(e)),
{
    canparse::dbc::Entry::from_str(line).ok()
}

/// Builds a canparse message-declaration entry from already-parsed fields;
/// folding a message declaration into the library is always fault-free.
#[verifier::external_body]
fn make_message_entry(id: u32, name: String, message_len: u32, node: String) -> (r:
    canparse::dbc::Entry)
    ensures
        entry_safe(r),
{
    canparse::dbc::Entry::MessageDefinition(
        canparse::dbc::MessageDefinition { id, name, message_len, sending_node: node },
    )
}

/// Relies on canparse's `PgnLibrary::add_entry`: folds one entry into the
/// library; a safe entry neither faults nor introduces an out-of-window
/// descriptor.
#[verifier::external_body]
fn catalog_add(lib: &mut canparse::pgn::PgnLibrary, e: canparse::dbc::Entry)
    requires
        lib_ok(*old(lib)),
        entry_safe(e),
    ensures
        lib_ok(*final(lib)),
{
    let _ = lib.add_entry(e);
}

/// Relies on canparse's `PgnLibrary::get_spn`: looks a descriptor up by
/// signal name. The crate resolves a name to a single descriptor; which one
/// is fixed by the library value, so equal lookups on one library agree.
#[verifier::external_body]
fn find_spn<'a>(lib: &'a canparse::pgn::PgnLibrary, name: &str) -> (r: Option<
    &'a canparse::pgn::SpnDefinition,
>)
    ensures
        r.is_some() == lib_has_signal(*lib, name.spec_bytes()),
        r matches Some(s) ==> *s == lib_signal_of(*lib, name.spec_bytes()),
        lib_ok(*lib) && r is Some ==> spn_ok(lib_signal_of(*lib, name.spec_bytes())),
{
    lib.get_spn(name)
}

/// Relies on canparse's `SpnDefinition::parse_message` on an 8-byte buffer:
/// the result depends on the descriptor's fields and the bytes alone; for an
/// in-window descriptor the extraction runs without fault. The physical value
/// is carried as its bit pattern.
#[verifier::external_body]
fn parse_spn(spn: &canparse::pgn::SpnDefinition, msg: &[u8; 8]) -> (r: Option<u32>)
    requires
        spn_ok(*spn),
    ensures
        r == spn_value_bits(*spn, msg@),
{
    canparse::pgn::ParseMessage::<&[u8; 8]>::parse_message(spn, msg).map(|v| v.to_bits())
}

/// Relies on std's `str::from_utf8`: succeeds exactly on valid UTF-8, and the
/// returned text is carried by exactly the input bytes.
#[verifier::external_body]
pub(crate) fn utf8_str(v: &[u8]) -> (r: Option<&str>)
    ensures
        r.is_some() == vstd::utf8::valid_utf8(v@),
        r matches Some(s) ==> s.spec_bytes() =~= v@,
{
    std::str::from_utf8(v).ok()
}

/// The Signal Catalog: the external library plus the guarantee that every
/// descriptor it holds is in-window.
pub struct Catalog {
    lib: canparse::pgn::PgnLibrary,
}

impl Catalog {
    /// The underlying library value, for contracts.
    pub closed spec fn lib(self) -> canparse::pgn::PgnLibrary {
        self.lib
    }

    /// Well-formedness: every held descriptor is in-window.
    pub open spec fn wf(self) -> bool {
        lib_ok(self.lib())
    }

    /// Look one signal's value out of a padded 8-byte payload: `Ok` with the
    /// value's bit pattern, or which decode failure the name ran into.
    pub fn parse_signal(&self, name: &String, padded: &[u8; 8]) -> (r: Result<
        u32,
        crate::errors::CanError,
    >)
        requires
            self.wf(),
        ensures
            r == crate::decode::spec_signal_result(
                self.lib(),
                vstd::utf8::encode_utf8(name@),
                padded@,
            ),
    {
        match find_spn(&self.lib, name.as_str()) {
            None => Err(crate::errors::CanError::UnknownSignal),
            Some(spn) => match parse_spn(spn, padded) {
                None => Err(crate::errors::CanError::DecodeError),
                Some(bits) => Ok(bits),
            },
        }
    }
}

/// Everything one DBC text yields: the Name Index, the identifier index, and
/// the Signal Catalog, all built from the same lines in one pass.
pub fn parse_dbc(text: &[u8]) -> (r: (NameIndex, CanIndex, Catalog))
    ensures
        r.0.model() == spec_name_index(text@),
        r.1.model() == spec_id_index(text@),
        r.2.wf(),
{
    let lines = split_lines(text);
    let ghost lseq = spec_line_split(text@);
    let mut name_index = NameIndex::empty();
    let mut id_index = CanIndex::empty();
    let mut lib = catalog_empty();
    let mut has_current = false;
    let ghost mut cur: Option<u32> = None;
    let mut i: usize = 0;
    proof {
        assert(lseq.skip(0) =~= lseq);
    }
    while i < lines.len()
        invariant
            i <= lines@.len(),
            lines.deep_view() == lseq,
            lseq == spec_line_split(text@),
            lib_ok(lib),
            has_current == (cur is Some),
            has_current ==> id_index.view_entries().len() > 0
                && id_index.view_entries().last().0 == cur->0 && id_index.model().dom().contains(
                cur->0,
            ) && id_index.model()[cur->0] == id_index.view_entries().last().1,
            spec_name_index(text@) == spec_name_index_from(
                lseq.skip(i as int),
                name_index.model(),
            ),
            spec_id_index(text@) == spec_id_index_from(lseq.skip(i as int), cur, id_index.model()),
        decreases lines@.len() - i,
    {
        let ghost rest = lseq.skip(i as int);
        let line = &lines[i];
        proof {
            assert(rest[0] == lseq[i as int]);
            assert(lseq[i as int] =~= line.deep_view());
            assert(line.deep_view() =~= line@);
            assert(rest.drop_first() =~= lseq.skip(i + 1));
        }
        match bo_entry(line.as_slice()) {
            Some((name, id)) => {
                let ghost name_bytes = name@;
                name_index.push_entry(name, id);

                // Offer the declaration to the catalog when the line carries
                // the full form `BO_ <id> <name>: <length> <node>`; nothing
                // verified depends on whether the catalog took it.
                let toks = tokens(line.as_slice());
                if toks.len() >= 5 {
                    if let Some(raw) = parse_u32(toks[1].as_slice()) {
                        if let Some(mlen) = parse_u32(toks[3].as_slice()) {
                            let mut nb = copy_bytes(toks[2].as_slice());
                            if nb.len() > 0 && nb[nb.len() - 1] == 58 {
                                nb.pop();
                            }
                            let node_slice = toks[4].as_slice();
                            let mut msg_name: Option<String> = None;
                            if let Some(ns) = utf8_str(nb.as_slice()) {
                                msg_name = Some(ns.to_owned());
                            }
                            if let Some(ms) = msg_name {
                                if let Some(nodes) = utf8_str(node_slice) {
                                    let e = make_message_entry(raw, ms, mlen, nodes.to_owned());
                                    catalog_add(&mut lib, e);
                                }
                            }
                        }
                    }
                }
                id_index.begin_message(id);
                proof {
                    cur = Some(id);
                }
                has_current = true;
            },
            None => {
                if has_current {
                    match sg_entry(line.as_slice()) {
                        Some((name_b, start, len)) => {
                            if start <= 63 && len <= 63 {
                                let mut signal_name: Option<String> = None;
                                if let Some(ns) = utf8_str(name_b.as_slice()) {
                                    signal_name = Some(ns.to_owned());
                                }
                                match signal_name {
                                    Some(sname) => {
                                        proof {
                                            assert(vstd::utf8::encode_utf8(sname@) =~= name_b@);
                                        }
                                        // Offer the declaration to the catalog.
                                        let mut lbytes = copy_bytes(line.as_slice());
                                        lbytes.push(10);
                                        proof {
                                            assert(lbytes@.drop_last() =~= line@);
                                        }
                                        if let Some(ls) = utf8_str(lbytes.as_slice()) {
                                            if let Some(e) = parse_line_entry(ls) {
                                                catalog_add(&mut lib, e);
                                            }
                                        }
                                        id_index.push_signal(sname);
                                    },
                                    None => {
                                    },
                                }
                            }
                        },
                        None => {
                        },
                    }
                }
            },
        }
        i = i + 1;
    }
    proof {
        assert(lseq.skip(lseq.len() as int) =~= Seq::<Seq<u8>>::empty());
    }
    (name_index, id_index, Catalog { lib })
}

} // verus!
