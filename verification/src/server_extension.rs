use vstd::prelude::*;
use vstd::slice::slice_index_get;
use vstd::slice::slice_subrange;

use crate::alert::AlertDescription;
use crate::alert::AlertLevel;
use crate::buffer::CryptoBuffer;
use crate::extension_type::ext_type_code;
use crate::extension_type::spec_ext_type_of;
use crate::extension_type::ExtensionType;
use crate::key_share::KeyShareEntry;
use crate::parse_buffer::ParseBuffer;
use crate::parse_buffer::ParseError;
use crate::wire::be16;
use crate::wire::u16_be;
use crate::TlsError;

verus! {

/// The most extensions one message may carry; decoding stops with a capacity
/// error rather than dropping entries.
pub const MAX_EXTENSIONS: usize = 16;

/// One decoded extension legal in a ServerHello. The set is closed: exactly
/// the types the ServerHello allow-list admits.
#[derive(Clone, Copy, Debug)]
pub enum ServerExtension<'a> {
    KeyShare(KeyShareEntry<'a>),
    PreSharedKey(u16),
    SupportedVersions(u16),
    PostHandshakeAuth,
}

/// Mathematical image of a decoded extension.
#[verifier::ext_equal]
pub enum ExtModel {
    KeyShare { group: u16, key: Seq<u8> },
    PreSharedKey { selected_identity: u16 },
    SupportedVersions { selected_version: u16 },
    PostHandshakeAuth,
}

impl<'a> View for ServerExtension<'a> {
    type V = ExtModel;

    open spec fn view(&self) -> ExtModel {
        match self {
            ServerExtension::KeyShare(k) => ExtModel::KeyShare { group: k.group, key: k.opaque@ },
            ServerExtension::PreSharedKey(id) => ExtModel::PreSharedKey {
                selected_identity: *id,
            },
            ServerExtension::SupportedVersions(v) => ExtModel::SupportedVersions {
                selected_version: *v,
            },
            ServerExtension::PostHandshakeAuth => ExtModel::PostHandshakeAuth,
        }
    }
}

/// The extension type an extension is tagged with.
pub open spec fn ext_model_type(m: ExtModel) -> ExtensionType {
    match m {
        ExtModel::KeyShare { .. } => ExtensionType::KeyShare,
        ExtModel::PreSharedKey { .. } => ExtensionType::PreSharedKey,
        ExtModel::SupportedVersions { .. } => ExtensionType::SupportedVersions,
        ExtModel::PostHandshakeAuth => ExtensionType::PostHandshakeAuth,
    }
}

/// The allow-list for the ServerHello context (RFC 8446 section 4.2, the
/// rows marked SH).
pub open spec fn server_hello_allowed(t: ExtensionType) -> bool {
    t == ExtensionType::KeyShare || t == ExtensionType::PreSharedKey || t
        == ExtensionType::SupportedVersions || t == ExtensionType::PostHandshakeAuth
}

/// The payload bytes an extension encodes to, without the envelope.
pub open spec fn spec_payload_bytes(m: ExtModel) -> Seq<u8> {
    match m {
        ExtModel::KeyShare { group, key } => u16_be(group) + key,
        ExtModel::PreSharedKey { selected_identity } => u16_be(selected_identity),
        ExtModel::SupportedVersions { selected_version } => u16_be(selected_version),
        ExtModel::PostHandshakeAuth => Seq::empty(),
    }
}

/// An extension is encodable when its payload length fits the two-byte
/// length prefix.
pub open spec fn ext_wf(m: ExtModel) -> bool {
    spec_payload_bytes(m).len() <= 0xffff
}

/// The full wire form of one extension: type code, payload length, payload.
pub open spec fn spec_extension_bytes(m: ExtModel) -> Seq<u8> {
    u16_be(ext_type_code(ext_model_type(m))) + u16_be(spec_payload_bytes(m).len() as u16)
        + spec_payload_bytes(m)
}

/// The extension a payload region of exactly `body` decodes to under tag `t`,
/// if any. The length prefix must equal the bytes the payload codec consumes:
/// no implicit padding and no truncation.
pub open spec fn spec_parse_payload(t: ExtensionType, body: Seq<u8>) -> Option<ExtModel> {
    match t {
        ExtensionType::KeyShare => if body.len() >= 2 {
            Some(ExtModel::KeyShare { group: be16(body[0], body[1]), key: body.skip(2) })
        } else {
            None
        },
        ExtensionType::PreSharedKey => if body.len() == 2 {
            Some(ExtModel::PreSharedKey { selected_identity: be16(body[0], body[1]) })
        } else {
            None
        },
        ExtensionType::SupportedVersions => if body.len() == 2 {
            Some(ExtModel::SupportedVersions { selected_version: be16(body[0], body[1]) })
        } else {
            None
        },
        ExtensionType::PostHandshakeAuth => if body.len() == 0 {
            Some(ExtModel::PostHandshakeAuth)
        } else {
            None
        },
        _ => None,
    }
}

/// Outcome of decoding one extension from the head of a byte sequence:
/// the extension and how many bytes it took, or the exact error owed.
pub enum ExtParsed {
    Done { ext: ExtModel, consumed: int },
    Fail { err: TlsError },
}

/// Decoding one extension from the head of `s`, in the ServerHello context.
/// A code this build does not know at all is `UnknownExtensionType`; a code
/// it knows but the allow-list refuses is the fatal illegal-parameter abort;
/// short reads and payload defects are `DecodeError`.
pub open spec fn spec_parse_extension(s: Seq<u8>) -> ExtParsed {
    if s.len() < 2 {
        ExtParsed::Fail { err: TlsError::DecodeError }
    } else {
        match spec_ext_type_of(be16(s[0], s[1])) {
            None => ExtParsed::Fail { err: TlsError::UnknownExtensionType },
            Some(t) => if !server_hello_allowed(t) {
                ExtParsed::Fail {
                    err: TlsError::AbortHandshake(
                        AlertLevel::Fatal,
                        AlertDescription::IllegalParameter,
                    ),
                }
            } else if s.len() < 4 {
                ExtParsed::Fail { err: TlsError::DecodeError }
            } else {
                let len = be16(s[2], s[3]) as int;
                if s.len() < 4 + len {
                    ExtParsed::Fail { err: TlsError::DecodeError }
                } else {
                    match spec_parse_payload(t, s.subrange(4, 4 + len)) {
                        None => ExtParsed::Fail { err: TlsError::DecodeError },
                        Some(m) => ExtParsed::Done { ext: m, consumed: 4 + len },
                    }
                }
            },
        }
    }
}

/// Outcome of decoding an extension list or block.
pub enum ListParsed {
    Done { exts: Seq<ExtModel> },
    Fail { err: TlsError },
}

/// Joins an already-decoded prefix with the outcome for the bytes after it.
pub open spec fn spec_list_join(prefix: Seq<ExtModel>, tail: ListParsed) -> ListParsed {
    match tail {
        ListParsed::Done { exts } => ListParsed::Done { exts: prefix + exts },
        ListParsed::Fail { err } => ListParsed::Fail { err },
    }
}

/// Decoding extensions from `s` until it is empty, with room for `cap` more
/// entries. Bytes left over when the room is gone are a capacity error,
/// never a silent drop.
pub open spec fn spec_parse_ext_list(s: Seq<u8>, cap: int) -> ListParsed
    decreases cap,
{
    if s.len() == 0 {
        ListParsed::Done { exts: Seq::empty() }
    } else if cap <= 0 {
        ListParsed::Fail { err: TlsError::CapacityExceeded }
    } else {
        match spec_parse_extension(s) {
            ExtParsed::Done { ext, consumed } => spec_list_join(
                seq![ext],
                spec_parse_ext_list(s.skip(consumed), cap - 1),
            ),
            ExtParsed::Fail { err } => ListParsed::Fail { err },
        }
    }
}

/// The extensions block: a two-byte length prefix, then the list that fills
/// exactly the prefixed region.
pub open spec fn spec_parse_ext_block(s: Seq<u8>) -> ListParsed {
    if s.len() < 2 {
        ListParsed::Fail { err: TlsError::DecodeError }
    } else {
        let bl = be16(s[0], s[1]) as int;
        if s.len() < 2 + bl {
            ListParsed::Fail { err: TlsError::DecodeError }
        } else {
            spec_parse_ext_list(s.subrange(2, 2 + bl), MAX_EXTENSIONS as int)
        }
    }
}

/// The views of a sequence of decoded extensions.
pub open spec fn ext_views<'a>(s: Seq<ServerExtension<'a>>) -> Seq<ExtModel> {
    s.map_values(|e: ServerExtension<'a>| e@)
}

/// A successfully decoded extension takes at least its four envelope bytes
/// and never more than the input.
pub proof fn lemma_parse_ext_consumed(s: Seq<u8>)
    ensures
        spec_parse_extension(s) matches ExtParsed::Done { consumed, .. } ==> 4 <= consumed
            <= s.len(),
{
}

impl<'a> ServerExtension<'a> {
    /// The extension type this extension is tagged with.
    pub fn extension_type(&self) -> (r: ExtensionType)
        ensures
            r == ext_model_type(self@),
    {
        match self {
            ServerExtension::KeyShare(_) => ExtensionType::KeyShare,
            ServerExtension::PreSharedKey(_) => ExtensionType::PreSharedKey,
            ServerExtension::SupportedVersions(_) => ExtensionType::SupportedVersions,
            ServerExtension::PostHandshakeAuth => ExtensionType::PostHandshakeAuth,
        }
    }

    /// Writes this extension's type code, then its payload inside a scoped
    /// two-byte length prefix filled with the payload's actual length.
    pub fn encode(&self, buf: &mut CryptoBuffer) -> (r: Result<(), TlsError>)
        ensures
            ext_wf(self@) ==> r == Ok::<(), TlsError>(()) && final(buf)@ == old(buf)@
                + spec_extension_bytes(self@),
            !ext_wf(self@) ==> r == Err::<(), TlsError>(TlsError::EncodeError),
    {
        self.extension_type().encode(buf)?;
        let pos = buf.open_u16_length();
        match self {
            ServerExtension::KeyShare(k) => {
                buf.push_u16(k.group)?;
                buf.extend_from_slice(k.opaque)?;
            },
            ServerExtension::PreSharedKey(id) => {
                buf.push_u16(*id)?;
            },
            ServerExtension::SupportedVersions(v) => {
                buf.push_u16(*v)?;
            },
            ServerExtension::PostHandshakeAuth => {},
        }
        proof {
            assert(buf@ =~= old(buf)@ + u16_be(ext_type_code(ext_model_type(self@))) + seq![
                0u8,
                0u8,
            ] + spec_payload_bytes(self@));
        }
        let r = buf.close_u16_length(pos);
        proof {
            if ext_wf(self@) {
                crate::wire::lemma_u16_be_round((spec_payload_bytes(self@).len()) as u16);
                assert(buf@ =~= old(buf)@ + spec_extension_bytes(self@));
            }
        }
        r
    }

    /// Decodes one extension in the ServerHello context, per the allow-list
    /// rules of `spec_parse_extension`.
    pub fn parse(buf: &mut ParseBuffer<'a>) -> (r: Result<ServerExtension<'a>, TlsError>)
        requires
            old(buf).wf(),
        ensures
            final(buf).wf(),
            (match spec_parse_extension(old(buf).remaining()) {
                ExtParsed::Done { ext, consumed } => r matches Ok(e) && e@ == ext
                    && final(buf).remaining() == old(buf).remaining().skip(consumed),
                ExtParsed::Fail { err } => r matches Err(e) && e == err,
            }),
    {
        let ghost s = old(buf).remaining();
        let t = match ExtensionType::parse(buf) {
            Ok(t) => t,
            Err(ParseError::InvalidData) => {
                return Err(TlsError::UnknownExtensionType);
            },
            Err(ParseError::InsufficientData) => {
                return Err(TlsError::DecodeError);
            },
        };
        match t {
            ExtensionType::KeyShare | ExtensionType::PreSharedKey
                | ExtensionType::SupportedVersions | ExtensionType::PostHandshakeAuth => {},
            _ => {
                return Err(
                    TlsError::AbortHandshake(AlertLevel::Fatal, AlertDescription::IllegalParameter),
                );
            },
        }
        let len = match buf.read_u16() {
            Ok(l) => l,
            Err(_) => {
                return Err(TlsError::DecodeError);
            },
        };
        proof {
            assert(buf.remaining() =~= s.skip(4));
            assert(len == be16(s[2], s[3]));
        }
        let body = match buf.slice(len as usize) {
            Ok(b) => b,
            Err(_) => {
                return Err(TlsError::DecodeError);
            },
        };
        proof {
            assert(body@ =~= s.subrange(4, 4 + len as int));
            assert(buf.remaining() =~= s.skip(4 + len as int));
        }
        let ext = match t {
            ExtensionType::KeyShare => {
                if body.len() < 2 {
                    return Err(TlsError::DecodeError);
                }
                let hi = *slice_index_get(body, 0);
                let lo = *slice_index_get(body, 1);
                let opaque = slice_subrange(body, 2, body.len());
                proof {
                    assert(opaque@ =~= body@.skip(2));
                }
                ServerExtension::KeyShare(
                    KeyShareEntry { group: (hi as u16) * 256 + lo as u16, opaque },
                )
            },
            ExtensionType::PreSharedKey => {
                if body.len() != 2 {
                    return Err(TlsError::DecodeError);
                }
                let hi = *slice_index_get(body, 0);
                let lo = *slice_index_get(body, 1);
                ServerExtension::PreSharedKey((hi as u16) * 256 + lo as u16)
            },
            ExtensionType::SupportedVersions => {
                if body.len() != 2 {
                    return Err(TlsError::DecodeError);
                }
                let hi = *slice_index_get(body, 0);
                let lo = *slice_index_get(body, 1);
                ServerExtension::SupportedVersions((hi as u16) * 256 + lo as u16)
            },
            ExtensionType::PostHandshakeAuth => {
                if body.len() != 0 {
                    return Err(TlsError::DecodeError);
                }
                ServerExtension::PostHandshakeAuth
            },
            _ => {
                proof {
                    assert(false);
                }
                return Err(TlsError::DecodeError);
            },
        };
        Ok(ext)
    }
}

impl<'a> ServerExtension<'a> {
    /// Decodes the whole extensions block: reads the two-byte block length,
    /// then extensions until the block is exhausted, refusing to hold more
    /// than `MAX_EXTENSIONS`.
    pub fn parse_vector(buf: &mut ParseBuffer<'a>) -> (r: Result<
        Vec<ServerExtension<'a>>,
        TlsError,
    >)
        requires
            old(buf).wf(),
        ensures
            final(buf).wf(),
            (match spec_parse_ext_block(old(buf).remaining()) {
                ListParsed::Done { exts } => ({
                    let bl = be16(old(buf).remaining()[0], old(buf).remaining()[1]) as int;
                    r matches Ok(v) && ext_views(v@) == exts && v@.len() <= MAX_EXTENSIONS
                        && final(buf).remaining() == old(buf).remaining().skip(2 + bl)
                }),
                ListParsed::Fail { err } => r matches Err(e) && e == err,
            }),
    {
        let ghost s0 = old(buf).remaining();
        let block_len = match buf.read_u16() {
            Ok(l) => l,
            Err(_) => {
                return Err(TlsError::DecodeError);
            },
        };
        let block = match buf.slice(block_len as usize) {
            Ok(b) => b,
            Err(_) => {
                return Err(TlsError::DecodeError);
            },
        };
        proof {
            assert(block@ =~= s0.subrange(2, 2 + block_len as int));
        }
        let mut inner = ParseBuffer::new(block);
        let mut out: Vec<ServerExtension<'a>> = Vec::new();
        proof {
            assert(ext_views(out@) =~= Seq::<ExtModel>::empty());
            match spec_parse_ext_list(block@, MAX_EXTENSIONS as int) {
                ListParsed::Done { exts } => {
                    assert(Seq::<ExtModel>::empty() + exts =~= exts);
                },
                ListParsed::Fail { .. } => {},
            }
        }
        while inner.remaining_len() > 0
            invariant
                s0 == old(buf).remaining(),
                inner.wf(),
                buf.wf(),
                out@.len() <= MAX_EXTENSIONS,
                s0.len() >= 2,
                block_len == be16(s0[0], s0[1]),
                s0.len() >= 2 + block_len as int,
                block@ == s0.subrange(2, 2 + block_len as int),
                buf.remaining() == s0.skip(2 + block_len as int),
                spec_parse_ext_list(block@, MAX_EXTENSIONS as int) == spec_list_join(
                    ext_views(out@),
                    spec_parse_ext_list(inner.remaining(), MAX_EXTENSIONS - out@.len()),
                ),
            decreases inner.remaining().len(),
        {
            if out.len() == MAX_EXTENSIONS {
                return Err(TlsError::CapacityExceeded);
            }
            let ghost prev_rem = inner.remaining();
            let ghost prev_out = out@;
            let e = match ServerExtension::parse(&mut inner) {
                Ok(e) => e,
                Err(err) => {
                    return Err(err);
                },
            };
            proof {
                lemma_parse_ext_consumed(prev_rem);
            }
            out.push(e);
            proof {
                assert(ext_views(out@) =~= ext_views(prev_out) + seq![e@]);
                match spec_parse_extension(prev_rem) {
                    ExtParsed::Done { ext, consumed } => {
                        match spec_parse_ext_list(
                            inner.remaining(),
                            MAX_EXTENSIONS - out@.len(),
                        ) {
                            ListParsed::Done { exts } => {
                                assert(ext_views(prev_out) + (seq![ext] + exts) =~= ext_views(out@)
                                    + exts);
                            },
                            ListParsed::Fail { .. } => {},
                        }
                    },
                    ExtParsed::Fail { .. } => {
                        assert(false);
                    },
                }
            }
        }
        proof {
            assert(inner.remaining().len() == 0);
            assert(ext_views(out@) + Seq::<ExtModel>::empty() =~= ext_views(out@));
        }
        Ok(out)
    }
}

/// One extension's wire form decodes back to that extension, whatever bytes
/// follow it, and takes exactly its own length: the codec round-trips.
pub proof fn lemma_extension_round_trip(m: ExtModel, rest: Seq<u8>)
    requires
        ext_wf(m),
    ensures
        spec_parse_extension(spec_extension_bytes(m) + rest) == (ExtParsed::Done {
            ext: m,
            consumed: spec_extension_bytes(m).len() as int,
        }),
{
    let code = ext_type_code(ext_model_type(m));
    let p = spec_payload_bytes(m);
    let s = spec_extension_bytes(m) + rest;
    crate::wire::lemma_u16_be_round(code);
    crate::wire::lemma_u16_be_round(p.len() as u16);
    assert(s[0] == u16_be(code)[0] && s[1] == u16_be(code)[1]);
    assert(be16(s[0], s[1]) == code);
    crate::extension_type::lemma_ext_type_round(ext_model_type(m));
    assert(s[2] == u16_be(p.len() as u16)[0] && s[3] == u16_be(p.len() as u16)[1]);
    assert(be16(s[2], s[3]) == p.len() as u16);
    assert(s.len() >= 4 + p.len());
    assert(s.subrange(4, 4 + p.len() as int) =~= p);
    let body = s.subrange(4, 4 + p.len() as int);
    match m {
        ExtModel::KeyShare { group, key } => {
            crate::wire::lemma_u16_be_round(group);
            assert(body[0] == u16_be(group)[0] && body[1] == u16_be(group)[1]);
            assert(be16(body[0], body[1]) == group);
            assert(body.skip(2) =~= key);
        },
        ExtModel::PreSharedKey { selected_identity } => {
            crate::wire::lemma_u16_be_round(selected_identity);
            assert(body[0] == u16_be(selected_identity)[0] && body[1] == u16_be(
                selected_identity,
            )[1]);
        },
        ExtModel::SupportedVersions { selected_version } => {
            crate::wire::lemma_u16_be_round(selected_version);
            assert(body[0] == u16_be(selected_version)[0] && body[1] == u16_be(
                selected_version,
            )[1]);
        },
        ExtModel::PostHandshakeAuth => {},
    }
    assert(spec_parse_payload(ext_model_type(m), body) == Some(m));
}

/// An extension type this build recognizes but the ServerHello allow-list
/// refuses fails with the fatal illegal-parameter abort — never a generic
/// decode error and never the unknown-type error.
pub proof fn lemma_foreign_extension_aborts(s: Seq<u8>)
    requires
        s.len() >= 2,
        (spec_ext_type_of(be16(s[0], s[1])) matches Some(t) && !server_hello_allowed(t)),
    ensures
        spec_parse_extension(s) == (ExtParsed::Fail {
            err: TlsError::AbortHandshake(AlertLevel::Fatal, AlertDescription::IllegalParameter),
        }),
{
}

/// The wire forms of a sequence of extensions, one after the other.
pub open spec fn concat_extension_bytes(ms: Seq<ExtModel>) -> Seq<u8>
    decreases ms.len(),
{
    if ms.len() == 0 {
        Seq::empty()
    } else {
        spec_extension_bytes(ms[0]) + concat_extension_bytes(ms.skip(1))
    }
}

/// A list of at most `cap` encodable extensions, laid out back to back,
/// decodes to exactly that list: the aggregate codec round-trips.
pub proof fn lemma_ext_list_round_trip(ms: Seq<ExtModel>, cap: int)
    requires
        forall|i: int| 0 <= i < ms.len() ==> ext_wf(#[trigger] ms[i]),
        ms.len() <= cap,
    ensures
        spec_parse_ext_list(concat_extension_bytes(ms), cap) == (ListParsed::Done { exts: ms }),
    decreases ms.len(),
{
    if ms.len() == 0 {
        assert(concat_extension_bytes(ms) =~= Seq::<u8>::empty());
        assert(Seq::<ExtModel>::empty() =~= ms);
    } else {
        let head = ms[0];
        let rest = concat_extension_bytes(ms.skip(1));
        let s = concat_extension_bytes(ms);
        lemma_extension_round_trip(head, rest);
        assert(s == spec_extension_bytes(head) + rest);
        assert(s.len() > 0);
        assert(s.skip(spec_extension_bytes(head).len() as int) =~= rest);
        assert(forall|i: int| 0 <= i < ms.skip(1).len() ==> ext_wf(#[trigger] ms.skip(1)[i]));
        lemma_ext_list_round_trip(ms.skip(1), cap - 1);
        assert(seq![head] + ms.skip(1) =~= ms);
    }
}

/// More encodable extensions than there is room for fail with the capacity
/// error, deterministically.
pub proof fn lemma_ext_list_capacity(ms: Seq<ExtModel>, cap: int)
    requires
        forall|i: int| 0 <= i < ms.len() ==> ext_wf(#[trigger] ms[i]),
        0 <= cap < ms.len(),
    ensures
        spec_parse_ext_list(concat_extension_bytes(ms), cap) == (ListParsed::Fail {
            err: TlsError::CapacityExceeded,
        }),
    decreases cap,
{
    let s = concat_extension_bytes(ms);
    assert(s.len() > 0);
    if cap > 0 {
        let head = ms[0];
        let rest = concat_extension_bytes(ms.skip(1));
        lemma_extension_round_trip(head, rest);
        assert(s.skip(spec_extension_bytes(head).len() as int) =~= rest);
        assert(forall|i: int| 0 <= i < ms.skip(1).len() ==> ext_wf(#[trigger] ms.skip(1)[i]));
        lemma_ext_list_capacity(ms.skip(1), cap - 1);
    }
}

} // verus!
