//! Wire codecs for the six ClientHello extensions that the host TLS stack lacks.
use vstd::prelude::*;
use crate::codec::{Reader, be16, from_be16, put_bytes, put_u16};
use crate::error::InvalidMessage;
use crate::types::{CertificateCompressionAlgorithm, SignatureScheme};
use crate::wire::{
    codes, fits, items, lemma_codes_len, lemma_parse_codes, lemma_parse_items,
    parse_codes, parse_items, put_items, read_items, views,
};

verus! {

/// What a decoder gives: the value and how many bytes it used, or why it failed.
pub type Parsed<T> = Result<(T, int), InvalidMessage>;

// ---------------------------------------------------------------------------
// Two-byte codepoint lists

/// Appends each codepoint as two big-endian bytes.
fn put_codes(out: &mut Vec<u8>, cs: &Vec<u16>)
    ensures
        final(out)@ == old(out)@ + codes(cs@),
{
    let mut i: usize = 0;
    while i < cs.len()
        invariant
            i <= cs@.len(),
            out@ == old(out)@ + codes(cs@.subrange(0, i as int)),
        decreases cs@.len() - i,
    {
        put_u16(out, cs[i]);
        assert(cs@.subrange(0, i + 1).drop_last() =~= cs@.subrange(0, i as int));
        i = i + 1;
        assert(out@ =~= old(out)@ + codes(cs@.subrange(0, i as int)));
    }
    assert(cs@.subrange(0, i as int) =~= cs@);
}

/// Reads two-byte codepoints until `r` is used up; `r` must hold an even count of bytes.
fn read_codes(r: &mut Reader) -> (res: Vec<u16>)
    requires
        old(r).wf(),
        old(r).rest_view().len() % 2 == 0,
    ensures
        parse_codes(old(r).rest_view()) == Some(res@),
{
    let mut out: Vec<u16> = Vec::new();
    let ghost start = r.rest_view();
    while r.any_left()
        invariant
            r.wf(),
            r.rest_view().len() % 2 == 0,
            start == old(r).rest_view(),
            parse_codes(start) == match parse_codes(r.rest_view()) {
                Some(t) => Some(out@ + t),
                None => None::<Seq<u16>>,
            },
        decreases r.rest_view().len(),
    {
        let ghost s = r.rest_view();
        let v = match r.read_u16() {
            Some(v) => v,
            None => { assert(false); 0 },
        };
        proof {
            match parse_codes(r.rest_view()) {
                Some(t) => {
                    assert(out@.push(v) + t =~= out@ + (seq![v] + t));
                },
                None => {},
            }
        }
        out.push(v);
    }
    assert(out@ + seq![] =~= out@);
    out
}

/// The codepoints of a list of signature schemes.
pub open spec fn scheme_codes(v: Seq<SignatureScheme>) -> Seq<u16> {
    v.map_values(|s: SignatureScheme| s.0)
}

/// The codepoints of a list of compression algorithms.
pub open spec fn algorithm_codes(v: Seq<CertificateCompressionAlgorithm>) -> Seq<u16> {
    v.map_values(|a: CertificateCompressionAlgorithm| a.0)
}

fn scheme_values(v: &Vec<SignatureScheme>) -> (r: Vec<u16>)
    ensures
        r@ == scheme_codes(v@),
{
    let mut r: Vec<u16> = Vec::new();
    let mut i: usize = 0;
    while i < v.len()
        invariant
            i <= v@.len(),
            r@ == scheme_codes(v@.subrange(0, i as int)),
        decreases v@.len() - i,
    {
        r.push(v[i].0);
        i = i + 1;
        assert(r@ =~= scheme_codes(v@.subrange(0, i as int)));
    }
    assert(v@.subrange(0, i as int) =~= v@);
    r
}

fn schemes_of(v: &Vec<u16>) -> (r: Vec<SignatureScheme>)
    ensures
        scheme_codes(r@) == v@,
{
    let mut r: Vec<SignatureScheme> = Vec::new();
    let mut i: usize = 0;
    while i < v.len()
        invariant
            i <= v@.len(),
            r@.len() == i,
            forall|j: int| 0 <= j < i ==> (#[trigger] r@[j]).0 == v@[j],
        decreases v@.len() - i,
    {
        r.push(SignatureScheme(v[i]));
        i = i + 1;
    }
    assert(scheme_codes(r@) =~= v@);
    r
}

fn algorithm_values(v: &Vec<CertificateCompressionAlgorithm>) -> (r: Vec<u16>)
    ensures
        r@ == algorithm_codes(v@),
{
    let mut r: Vec<u16> = Vec::new();
    let mut i: usize = 0;
    while i < v.len()
        invariant
            i <= v@.len(),
            r@ == algorithm_codes(v@.subrange(0, i as int)),
        decreases v@.len() - i,
    {
        r.push(v[i].0);
        i = i + 1;
        assert(r@ =~= algorithm_codes(v@.subrange(0, i as int)));
    }
    assert(v@.subrange(0, i as int) =~= v@);
    r
}

fn algorithms_of(v: &Vec<u16>) -> (r: Vec<CertificateCompressionAlgorithm>)
    ensures
        algorithm_codes(r@) == v@,
{
    let mut r: Vec<CertificateCompressionAlgorithm> = Vec::new();
    let mut i: usize = 0;
    while i < v.len()
        invariant
            i <= v@.len(),
            r@.len() == i,
            forall|j: int| 0 <= j < i ==> (#[trigger] r@[j]).0 == v@[j],
        decreases v@.len() - i,
    {
        r.push(CertificateCompressionAlgorithm(v[i]));
        i = i + 1;
    }
    assert(algorithm_codes(r@) =~= v@);
    r
}


// ---------------------------------------------------------------------------
// ApplicationSettings

/// Application-layer settings (ALPS): the protocols that carry settings.
#[derive(Debug, Clone, PartialEq, Eq)]
pub struct ApplicationSettingsExtension {
    pub protocols: Vec<Vec<u8>>,
}

/// Bytes of ALPS: a two-byte total length, then each protocol with a one-byte length.
pub open spec fn application_settings_wire(ps: Seq<Seq<u8>>) -> Seq<u8> {
    be16((items(ps, false).len() % 65536) as u16) + items(ps, false)
}

/// Reads a two-byte length and a body of that length.
pub open spec fn parse_prefixed16(s: Seq<u8>) -> Option<Seq<u8>> {
    if s.len() < 2 {
        None
    } else {
        let n = from_be16(s[0], s[1]) as int;
        if 2 + n > s.len() {
            None
        } else {
            Some(s.subrange(2, 2 + n))
        }
    }
}

/// Decoding of ALPS from the front of `s`.
pub open spec fn parse_application_settings(s: Seq<u8>) -> Parsed<Seq<Seq<u8>>> {
    match parse_prefixed16(s) {
        None => Err(InvalidMessage::MissingData),
        Some(body) => match parse_items(body, false) {
            Some(ps) => Ok((ps, 2 + body.len() as int)),
            None => Err(InvalidMessage::MissingData),
        },
    }
}

impl ApplicationSettingsExtension {
    pub open spec fn model(&self) -> Seq<Seq<u8>> {
        views(self.protocols@)
    }

    /// Every protocol fits a one-byte length and the body a two-byte one.
    pub open spec fn fits_wire(&self) -> bool {
        fits(self.model(), false) && items(self.model(), false).len() < 65536
    }

    pub fn new(protocols: Vec<Vec<u8>>) -> (r: Self)
        ensures
            r.protocols == protocols,
    {
        ApplicationSettingsExtension { protocols }
    }

    pub fn empty() -> (r: Self)
        ensures
            r.protocols@.len() == 0,
    {
        ApplicationSettingsExtension { protocols: Vec::new() }
    }

    /// Appends the wire form.
    pub fn encode(&self, bytes: &mut Vec<u8>)
        ensures
            final(bytes)@ == old(bytes)@ + application_settings_wire(self.model()),
    {
        let mut inner: Vec<u8> = Vec::new();
        put_items(&mut inner, &self.protocols, false);
        assert(inner@ =~= items(self.model(), false));
        put_u16(bytes, (inner.len() % 65536) as u16);
        put_bytes(bytes, inner.as_slice());
        assert(bytes@ =~= old(bytes)@ + application_settings_wire(self.model()));
    }

    /// Reads the wire form from the front of `r`.
    pub fn read(r: &mut Reader) -> (res: Result<Self, InvalidMessage>)
        requires
            old(r).wf(),
        ensures
            final(r).wf(),
            match res {
                Ok(x) => exists|n: int| parse_application_settings(old(r).rest_view()) == Ok::<(Seq<Seq<u8>>, int), InvalidMessage>((x.model(), n))
                    && final(r).rest_view() == old(r).rest_view().subrange(n, old(r).rest_view().len() as int),
                Err(e) => parse_application_settings(old(r).rest_view()) == Err::<(Seq<Seq<u8>>, int), InvalidMessage>(e),
            },
    {
        let ghost s = r.rest_view();
        let len = match r.read_u16() {
            Some(v) => v as usize,
            None => { return Err(InvalidMessage::MissingData); },
        };
        let mut sub = match r.sub(len) {
            Some(x) => x,
            None => { return Err(InvalidMessage::MissingData); },
        };
        proof {
            assert(sub.rest_view() =~= s.subrange(2, 2 + len));
            assert(r.rest_view() =~= s.subrange(2 + len, s.len() as int));
        }
        match read_items(&mut sub, false) {
            Ok(protocols) => {
                let x = ApplicationSettingsExtension { protocols };
                assert(parse_application_settings(s) == Ok::<(Seq<Seq<u8>>, int), InvalidMessage>((x.model(), 2 + len)));
                Ok(x)
            },
            Err(e) => Err(e),
        }
    }
}

/// Encoding then decoding ALPS gives back the same protocols, whatever follows.
pub proof fn lemma_application_settings_round_trip(x: ApplicationSettingsExtension, rest: Seq<u8>)
    requires
        x.fits_wire(),
    ensures
        parse_application_settings(application_settings_wire(x.model()) + rest)
            == Ok::<(Seq<Seq<u8>>, int), InvalidMessage>((x.model(), application_settings_wire(x.model()).len() as int)),
{
    let body = items(x.model(), false);
    let s = application_settings_wire(x.model()) + rest;
    lemma_parse_items(x.model(), false);
    assert(s.subrange(2, 2 + body.len() as int) =~= body);
}

// ---------------------------------------------------------------------------
// DelegatedCredential

/// Delegated credentials: the signature schemes a delegated credential may use.
#[derive(Debug, Clone, PartialEq, Eq)]
pub struct DelegatedCredentialExtension {
    pub signature_algorithms: Vec<SignatureScheme>,
}

/// Bytes of a delegated-credential extension: a two-byte byte count, then the codepoints.
pub open spec fn delegated_credential_wire(cs: Seq<u16>) -> Seq<u8> {
    be16(((cs.len() % 32768) * 2) as u16) + codes(cs)
}

/// Decoding of a delegated-credential extension from the front of `s`.
pub open spec fn parse_delegated_credential(s: Seq<u8>) -> Parsed<Seq<u16>> {
    if s.len() < 2 {
        Err(InvalidMessage::MissingData)
    } else if (from_be16(s[0], s[1]) as int) % 2 != 0 {
        Err(InvalidMessage::OddLength)
    } else {
        match parse_prefixed16(s) {
            None => Err(InvalidMessage::MissingData),
            Some(body) => match parse_codes(body) {
                Some(cs) => Ok((cs, 2 + body.len() as int)),
                None => Err(InvalidMessage::MissingData),
            },
        }
    }
}

impl DelegatedCredentialExtension {
    pub open spec fn model(&self) -> Seq<u16> {
        scheme_codes(self.signature_algorithms@)
    }

    /// The byte count fits its two-byte length.
    pub open spec fn fits_wire(&self) -> bool {
        self.signature_algorithms@.len() < 32768
    }

    pub fn new(signature_algorithms: Vec<SignatureScheme>) -> (r: Self)
        ensures
            r.signature_algorithms == signature_algorithms,
    {
        DelegatedCredentialExtension { signature_algorithms }
    }

    pub fn empty() -> (r: Self)
        ensures
            r.signature_algorithms@.len() == 0,
    {
        DelegatedCredentialExtension { signature_algorithms: Vec::new() }
    }

    /// Appends the wire form.
    pub fn encode(&self, bytes: &mut Vec<u8>)
        ensures
            final(bytes)@ == old(bytes)@ + delegated_credential_wire(self.model()),
    {
        let cs = scheme_values(&self.signature_algorithms);
        put_u16(bytes, ((cs.len() % 32768) * 2) as u16);
        put_codes(bytes, &cs);
        assert(bytes@ =~= old(bytes)@ + delegated_credential_wire(self.model()));
    }

    /// Reads the wire form from the front of `r`.
    pub fn read(r: &mut Reader) -> (res: Result<Self, InvalidMessage>)
        requires
            old(r).wf(),
        ensures
            final(r).wf(),
            match res {
                Ok(x) => exists|n: int| parse_delegated_credential(old(r).rest_view()) == Ok::<(Seq<u16>, int), InvalidMessage>((x.model(), n))
                    && final(r).rest_view() == old(r).rest_view().subrange(n, old(r).rest_view().len() as int),
                Err(e) => parse_delegated_credential(old(r).rest_view()) == Err::<(Seq<u16>, int), InvalidMessage>(e),
            },
    {
        let ghost s = r.rest_view();
        let len = match r.read_u16() {
            Some(v) => v as usize,
            None => { return Err(InvalidMessage::MissingData); },
        };
        if len % 2 != 0 {
            return Err(InvalidMessage::OddLength);
        }
        let mut sub = match r.sub(len) {
            Some(x) => x,
            None => { return Err(InvalidMessage::MissingData); },
        };
        proof {
            assert(sub.rest_view() =~= s.subrange(2, 2 + len));
            assert(r.rest_view() =~= s.subrange(2 + len, s.len() as int));
        }
        let cs = read_codes(&mut sub);
        let x = DelegatedCredentialExtension { signature_algorithms: schemes_of(&cs) };
        assert(parse_delegated_credential(s) == Ok::<(Seq<u16>, int), InvalidMessage>((x.model(), 2 + len)));
        Ok(x)
    }
}

/// Encoding then decoding a delegated-credential extension gives back the same schemes.
pub proof fn lemma_delegated_credential_round_trip(x: DelegatedCredentialExtension, rest: Seq<u8>)
    requires
        x.fits_wire(),
    ensures
        parse_delegated_credential(delegated_credential_wire(x.model()) + rest)
            == Ok::<(Seq<u16>, int), InvalidMessage>((x.model(), delegated_credential_wire(x.model()).len() as int)),
{
    let cs = x.model();
    let s = delegated_credential_wire(cs) + rest;
    lemma_codes_len(cs);
    lemma_parse_codes(cs);
    assert(s.subrange(2, 2 + codes(cs).len() as int) =~= codes(cs));
}

// ---------------------------------------------------------------------------
// CompressCertificate

/// Certificate compression: the algorithms the client accepts.
#[derive(Debug, Clone, PartialEq, Eq)]
pub struct CompressCertificateExtension {
    pub algorithms: Vec<CertificateCompressionAlgorithm>,
}

/// Bytes of a compress-certificate extension: a one-byte byte count, then the codepoints.
pub open spec fn compress_certificate_wire(cs: Seq<u16>) -> Seq<u8> {
    seq![((cs.len() % 128) * 2) as u8] + codes(cs)
}

/// Decoding of a compress-certificate extension from the front of `s`.
pub open spec fn parse_compress_certificate(s: Seq<u8>) -> Parsed<Seq<u16>> {
    if s.len() < 1 {
        Err(InvalidMessage::MissingData)
    } else if (s[0] as int) % 2 != 0 {
        Err(InvalidMessage::OddLength)
    } else if 1 + s[0] as int > s.len() {
        Err(InvalidMessage::MissingData)
    } else {
        match parse_codes(s.subrange(1, 1 + s[0] as int)) {
            Some(cs) => Ok((cs, 1 + s[0] as int)),
            None => Err(InvalidMessage::MissingData),
        }
    }
}

impl CompressCertificateExtension {
    pub open spec fn model(&self) -> Seq<u16> {
        algorithm_codes(self.algorithms@)
    }

    /// The byte count fits its one-byte length.
    pub open spec fn fits_wire(&self) -> bool {
        self.algorithms@.len() < 128
    }

    pub fn new(algorithms: Vec<CertificateCompressionAlgorithm>) -> (r: Self)
        ensures
            r.algorithms == algorithms,
    {
        CompressCertificateExtension { algorithms }
    }

    pub fn empty() -> (r: Self)
        ensures
            r.algorithms@.len() == 0,
    {
        CompressCertificateExtension { algorithms: Vec::new() }
    }

    /// Appends the wire form.
    pub fn encode(&self, bytes: &mut Vec<u8>)
        ensures
            final(bytes)@ == old(bytes)@ + compress_certificate_wire(self.model()),
    {
        let cs = algorithm_values(&self.algorithms);
        bytes.push(((cs.len() % 128) * 2) as u8);
        put_codes(bytes, &cs);
        assert(bytes@ =~= old(bytes)@ + compress_certificate_wire(self.model()));
    }

    /// Reads the wire form from the front of `r`.
    pub fn read(r: &mut Reader) -> (res: Result<Self, InvalidMessage>)
        requires
            old(r).wf(),
        ensures
            final(r).wf(),
            match res {
                Ok(x) => exists|n: int| parse_compress_certificate(old(r).rest_view()) == Ok::<(Seq<u16>, int), InvalidMessage>((x.model(), n))
                    && final(r).rest_view() == old(r).rest_view().subrange(n, old(r).rest_view().len() as int),
                Err(e) => parse_compress_certificate(old(r).rest_view()) == Err::<(Seq<u16>, int), InvalidMessage>(e),
            },
    {
        let ghost s = r.rest_view();
        let len = match r.read_u8() {
            Some(v) => v as usize,
            None => { return Err(InvalidMessage::MissingData); },
        };
        if len % 2 != 0 {
            return Err(InvalidMessage::OddLength);
        }
        let mut sub = match r.sub(len) {
            Some(x) => x,
            None => { return Err(InvalidMessage::MissingData); },
        };
        proof {
            assert(sub.rest_view() =~= s.subrange(1, 1 + len));
            assert(r.rest_view() =~= s.subrange(1 + len, s.len() as int));
        }
        let cs = read_codes(&mut sub);
        let x = CompressCertificateExtension { algorithms: algorithms_of(&cs) };
        assert(parse_compress_certificate(s) == Ok::<(Seq<u16>, int), InvalidMessage>((x.model(), 1 + len)));
        Ok(x)
    }
}

/// Encoding then decoding a compress-certificate extension gives back the same algorithms.
pub proof fn lemma_compress_certificate_round_trip(x: CompressCertificateExtension, rest: Seq<u8>)
    requires
        x.fits_wire(),
    ensures
        parse_compress_certificate(compress_certificate_wire(x.model()) + rest)
            == Ok::<(Seq<u16>, int), InvalidMessage>((x.model(), compress_certificate_wire(x.model()).len() as int)),
{
    let cs = x.model();
    let s = compress_certificate_wire(cs) + rest;
    lemma_codes_len(cs);
    lemma_parse_codes(cs);
    assert(s.subrange(1, 1 + codes(cs).len() as int) =~= codes(cs));
}


// ---------------------------------------------------------------------------
// Padding

/// Padding: a run of zero bytes of the configured length.
#[derive(Debug, Clone, PartialEq, Eq)]
pub struct PaddingExtension {
    pub length: u16,
}

/// `n` zero bytes.
pub open spec fn zeros(n: nat) -> Seq<u8> {
    Seq::new(n, |i: int| 0u8)
}

impl PaddingExtension {
    pub fn new(length: u16) -> (r: Self)
        ensures
            r.length == length,
    {
        PaddingExtension { length }
    }

    pub fn empty() -> (r: Self)
        ensures
            r.length == 0,
    {
        PaddingExtension { length: 0 }
    }

    /// Appends exactly `length` zero bytes.
    pub fn encode(&self, bytes: &mut Vec<u8>)
        ensures
            final(bytes)@ == old(bytes)@ + zeros(self.length as nat),
    {
        let mut i: u16 = 0;
        while i < self.length
            invariant
                i <= self.length,
                bytes@ == old(bytes)@ + zeros(i as nat),
            decreases self.length - i,
        {
            bytes.push(0u8);
            i = i + 1;
            assert(bytes@ =~= old(bytes)@ + zeros(i as nat));
        }
    }

    /// Takes the rest of `r` as padding; its length is the number of bytes left.
    pub fn read(r: &mut Reader) -> (res: Result<Self, InvalidMessage>)
        requires
            old(r).wf(),
        ensures
            final(r).wf(),
            final(r).rest_view().len() == 0,
            res matches Ok(x) && x.length == (old(r).rest_view().len() % 65536) as u16,
    {
        let b = r.rest();
        Ok(PaddingExtension { length: (b.len() % 65536) as u16 })
    }
}

/// Encoding a padding extension and reading it back gives the same length.
pub proof fn lemma_padding_round_trip(x: PaddingExtension)
    ensures
        zeros(x.length as nat).len() == x.length,
        ((zeros(x.length as nat).len() % 65536) as u16) == x.length,
{
}

// ---------------------------------------------------------------------------
// StatusRequest

/// OCSP status request: status type, responder ids and request extensions.
#[derive(Debug, Clone, PartialEq, Eq)]
pub struct StatusRequestExtension {
    pub status_type: u8,
    pub responder_id_list: Vec<Vec<u8>>,
    pub request_extensions: Vec<u8>,
}

/// The plain values of a status request.
pub struct StatusRequestModel {
    pub status_type: u8,
    pub responder_ids: Seq<Seq<u8>>,
    pub request_extensions: Seq<u8>,
}

/// Bytes of a status request: the type, the responder ids as a two-byte-length list of
/// two-byte-length strings, then the request extensions with a two-byte length.
pub open spec fn status_request_wire(m: StatusRequestModel) -> Seq<u8> {
    seq![m.status_type] + be16((items(m.responder_ids, true).len() % 65536) as u16)
        + items(m.responder_ids, true) + be16((m.request_extensions.len() % 65536) as u16)
        + m.request_extensions
}

/// Decoding of a status request from the front of `s`.
pub open spec fn parse_status_request(s: Seq<u8>) -> Parsed<StatusRequestModel> {
    if s.len() < 1 {
        Err(InvalidMessage::MissingData)
    } else {
        match parse_prefixed16(s.subrange(1, s.len() as int)) {
            None => Err(InvalidMessage::MissingData),
            Some(ids) => match parse_items(ids, true) {
                None => Err(InvalidMessage::MissingData),
                Some(list) => {
                    let k: int = 3 + ids.len() as int;
                    match parse_prefixed16(s.subrange(k, s.len() as int)) {
                        None => Err(InvalidMessage::MissingData),
                        Some(ext) => Ok(
                            (
                                StatusRequestModel {
                                    status_type: s[0],
                                    responder_ids: list,
                                    request_extensions: ext,
                                },
                                k + 2 + ext.len() as int,
                            ),
                        ),
                    }
                },
            },
        }
    }
}

impl StatusRequestExtension {
    pub open spec fn model(&self) -> StatusRequestModel {
        StatusRequestModel {
            status_type: self.status_type,
            responder_ids: views(self.responder_id_list@),
            request_extensions: self.request_extensions@,
        }
    }

    /// Every length fits its two-byte field.
    pub open spec fn fits_wire(&self) -> bool {
        &&& fits(self.model().responder_ids, true)
        &&& items(self.model().responder_ids, true).len() < 65536
        &&& self.request_extensions@.len() < 65536
    }

    /// A plain OCSP request: type 1, no responder ids, no extensions.
    pub fn ocsp() -> (r: Self)
        ensures
            r.status_type == 1,
            r.responder_id_list@.len() == 0,
            r.request_extensions@.len() == 0,
    {
        StatusRequestExtension {
            status_type: 1,
            responder_id_list: Vec::new(),
            request_extensions: Vec::new(),
        }
    }

    pub fn new(status_type: u8, responder_id_list: Vec<Vec<u8>>, request_extensions: Vec<u8>) -> (r: Self)
        ensures
            r.status_type == status_type,
            r.responder_id_list == responder_id_list,
            r.request_extensions == request_extensions,
    {
        StatusRequestExtension { status_type, responder_id_list, request_extensions }
    }

    /// Appends the wire form.
    pub fn encode(&self, bytes: &mut Vec<u8>)
        ensures
            final(bytes)@ == old(bytes)@ + status_request_wire(self.model()),
    {
        bytes.push(self.status_type);
        let mut ids: Vec<u8> = Vec::new();
        put_items(&mut ids, &self.responder_id_list, true);
        assert(ids@ =~= items(self.model().responder_ids, true));
        put_u16(bytes, (ids.len() % 65536) as u16);
        put_bytes(bytes, ids.as_slice());
        put_u16(bytes, (self.request_extensions.len() % 65536) as u16);
        put_bytes(bytes, self.request_extensions.as_slice());
        assert(bytes@ =~= old(bytes)@ + status_request_wire(self.model()));
    }

    /// Reads the wire form from the front of `r`.
    pub fn read(r: &mut Reader) -> (res: Result<Self, InvalidMessage>)
        requires
            old(r).wf(),
        ensures
            final(r).wf(),
            match res {
                Ok(x) => exists|n: int| parse_status_request(old(r).rest_view()) == Ok::<(StatusRequestModel, int), InvalidMessage>((x.model(), n))
                    && final(r).rest_view() == old(r).rest_view().subrange(n, old(r).rest_view().len() as int),
                Err(e) => parse_status_request(old(r).rest_view()) == Err::<(StatusRequestModel, int), InvalidMessage>(e),
            },
    {
        let ghost s = r.rest_view();
        let status_type = match r.read_u8() {
            Some(v) => v,
            None => { return Err(InvalidMessage::MissingData); },
        };
        let ghost s1 = r.rest_view();
        assert(s1 =~= s.subrange(1, s.len() as int));
        let len = match r.read_u16() {
            Some(v) => v as usize,
            None => { return Err(InvalidMessage::MissingData); },
        };
        let mut sub = match r.sub(len) {
            Some(x) => x,
            None => { return Err(InvalidMessage::MissingData); },
        };
        proof {
            assert(sub.rest_view() =~= s1.subrange(2, 2 + len));
            assert(r.rest_view() =~= s.subrange(3 + len, s.len() as int));
        }
        let responder_id_list = match read_items(&mut sub, true) {
            Ok(v) => v,
            Err(e) => { return Err(e); },
        };
        let ghost s2 = r.rest_view();
        let elen = match r.read_u16() {
            Some(v) => v as usize,
            None => { return Err(InvalidMessage::MissingData); },
        };
        let ext = match r.take(elen) {
            Some(b) => vstd::slice::slice_to_vec(b),
            None => { return Err(InvalidMessage::MissingData); },
        };
        proof {
            assert(ext@ =~= s2.subrange(2, 2 + elen));
            assert(r.rest_view() =~= s.subrange(3 + len + 2 + elen, s.len() as int));
        }
        let x = StatusRequestExtension { status_type, responder_id_list, request_extensions: ext };
        assert(parse_status_request(s) == Ok::<(StatusRequestModel, int), InvalidMessage>((x.model(), 3 + len + 2 + elen)));
        Ok(x)
    }
}

/// Encoding then decoding a status request gives back the same values, whatever follows.
#[verifier::rlimit(50)]
pub proof fn lemma_status_request_round_trip(x: StatusRequestExtension, rest: Seq<u8>)
    requires
        x.fits_wire(),
    ensures
        parse_status_request(status_request_wire(x.model()) + rest)
            == Ok::<(StatusRequestModel, int), InvalidMessage>((x.model(), status_request_wire(x.model()).len() as int)),
{
    let m = x.model();
    let ids = items(m.responder_ids, true);
    let e = m.request_extensions;
    let b = be16((ids.len() % 65536) as u16);
    let c = be16((e.len() % 65536) as u16);
    let s = status_request_wire(m) + rest;
    assert(s =~= seq![m.status_type] + (b + ids + (c + e + rest)));
    lemma_parse_items(m.responder_ids, true);
    let s1 = s.subrange(1, s.len() as int);
    assert(s1 =~= b + ids + (c + e + rest));
    assert(from_be16(s1[0], s1[1]) == ids.len());
    assert(s1.subrange(2, 2 + ids.len() as int) =~= ids);
    let k: int = 3 + ids.len() as int;
    let t = s.subrange(k, s.len() as int);
    assert(t =~= c + e + rest);
    assert(from_be16(t[0], t[1]) == e.len());
    assert(t.subrange(2, 2 + e.len() as int) =~= e);
}

// ---------------------------------------------------------------------------
// SignedCertificateTimestamp

/// Signed certificate timestamps: no payload, the presence is the signal.
#[derive(Debug, Clone, PartialEq, Eq)]
pub struct SignedCertificateTimestampExtension {}

impl SignedCertificateTimestampExtension {
    pub fn new() -> (r: Self) {
        SignedCertificateTimestampExtension {}
    }

    /// Writes nothing.
    pub fn encode(&self, bytes: &mut Vec<u8>)
        ensures
            final(bytes)@ == old(bytes)@,
    {
    }

    /// Reads nothing and always succeeds.
    pub fn read(r: &mut Reader) -> (res: Result<Self, InvalidMessage>)
        ensures
            *final(r) == *old(r),
            res is Ok,
    {
        Ok(SignedCertificateTimestampExtension {})
    }
}

impl Default for SignedCertificateTimestampExtension {
    fn default() -> (r: Self) {
        SignedCertificateTimestampExtension {}
    }
}

} // verus!
