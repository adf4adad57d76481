//! The four-phase customizer contract and the values it works on.
use vstd::prelude::*;
use crate::codec::{be16, put_bytes, put_u16};
use crate::config::BrowserTemplate;
use crate::error::Error;
use crate::state::TargetKey;
use crate::types::{CipherSuite, ExtensionType};

verus! {

/// One ClientHello extension: its type and encoded body.
#[derive(Debug, Clone)]
pub struct ClientExtension {
    pub ext_type: ExtensionType,
    pub data: Vec<u8>,
}

impl ClientExtension {
    pub fn new(ext_type: ExtensionType, data: Vec<u8>) -> (r: Self)
        ensures
            r.ext_type == ext_type,
            r.data == data,
    {
        ClientExtension { ext_type, data }
    }
}

/// Parameters settled before the ClientHello is built.
#[derive(Debug, Clone)]
pub struct ConfigParams {
    /// The peer, when the host knows it.
    pub target: Option<TargetKey>,
    /// The template chosen for this connection.
    pub template: Option<BrowserTemplate>,
}

impl ConfigParams {
    pub fn new() -> (r: Self)
        ensures
            r.target is None,
            r.template is None,
    {
        ConfigParams { target: None, template: None }
    }
}

impl Default for ConfigParams {
    fn default() -> (r: Self)
        ensures
            r.target is None,
            r.template is None,
    {
        ConfigParams::new()
    }
}

/// The ClientHello parts that the customizer can still change before it is marshaled.
#[derive(Debug, Clone)]
pub struct ClientHelloPayload {
    pub cipher_suites: Vec<CipherSuite>,
    pub extensions: Vec<ClientExtension>,
}

/// Wire form of the cipher suites: a two-byte byte count, then each codepoint.
pub open spec fn suites_wire(cs: Seq<CipherSuite>) -> Seq<u8>
    decreases cs.len(),
{
    if cs.len() == 0 {
        seq![]
    } else {
        suites_wire(cs.drop_last()) + be16(cs.last().0)
    }
}

/// Wire form of one extension: type, two-byte length, body.
pub open spec fn extension_wire(e: ClientExtension) -> Seq<u8> {
    be16(e.ext_type.spec_code()) + be16((e.data@.len() % 65536) as u16) + e.data@
}

/// Wire form of a list of extensions, one after another.
pub open spec fn extensions_wire(es: Seq<ClientExtension>) -> Seq<u8>
    decreases es.len(),
{
    if es.len() == 0 {
        seq![]
    } else {
        extensions_wire(es.drop_last()) + extension_wire(es.last())
    }
}

/// Wire form of a payload: both lists, each behind a two-byte byte count.
pub open spec fn payload_wire(p: ClientHelloPayload) -> Seq<u8> {
    be16((suites_wire(p.cipher_suites@).len() % 65536) as u16) + suites_wire(p.cipher_suites@)
        + be16((extensions_wire(p.extensions@).len() % 65536) as u16) + extensions_wire(p.extensions@)
}

impl ClientHelloPayload {
    pub fn new() -> (r: Self)
        ensures
            r.cipher_suites@.len() == 0,
            r.extensions@.len() == 0,
    {
        ClientHelloPayload { cipher_suites: Vec::new(), extensions: Vec::new() }
    }

    /// Marshals the payload.
    pub fn encode(&self) -> (r: Vec<u8>)
        ensures
            r@ == payload_wire(*self),
    {
        let mut cs: Vec<u8> = Vec::new();
        let mut i: usize = 0;
        while i < self.cipher_suites.len()
            invariant
                i <= self.cipher_suites@.len(),
                cs@ == suites_wire(self.cipher_suites@.subrange(0, i as int)),
            decreases self.cipher_suites@.len() - i,
        {
            put_u16(&mut cs, self.cipher_suites[i].0);
            assert(self.cipher_suites@.subrange(0, i + 1).drop_last() =~= self.cipher_suites@.subrange(0, i as int));
            i = i + 1;
        }
        assert(self.cipher_suites@.subrange(0, i as int) =~= self.cipher_suites@);
        let mut es: Vec<u8> = Vec::new();
        let mut j: usize = 0;
        while j < self.extensions.len()
            invariant
                j <= self.extensions@.len(),
                es@ == extensions_wire(self.extensions@.subrange(0, j as int)),
            decreases self.extensions@.len() - j,
        {
            let e = &self.extensions[j];
            put_u16(&mut es, e.ext_type.code());
            put_u16(&mut es, (e.data.len() % 65536) as u16);
            put_bytes(&mut es, e.data.as_slice());
            assert(self.extensions@.subrange(0, j + 1).drop_last() =~= self.extensions@.subrange(0, j as int));
            j = j + 1;
            assert(es@ =~= extensions_wire(self.extensions@.subrange(0, j as int)));
        }
        assert(self.extensions@.subrange(0, j as int) =~= self.extensions@);
        let mut out: Vec<u8> = Vec::new();
        put_u16(&mut out, (cs.len() % 65536) as u16);
        put_bytes(&mut out, cs.as_slice());
        put_u16(&mut out, (es.len() % 65536) as u16);
        put_bytes(&mut out, es.as_slice());
        assert(out@ =~= payload_wire(*self));
        out
    }
}

impl Default for ClientHelloPayload {
    fn default() -> (r: Self)
        ensures
            r.cipher_suites@.len() == 0,
            r.extensions@.len() == 0,
    {
        ClientHelloPayload::new()
    }
}

/// Callbacks through which ClientHello construction can be customized, in four phases:
/// configuration, components, structure, wire bytes. Each defaults to doing nothing;
/// an error from any phase aborts the handshake.
pub trait ClientHelloCustomizer {
    /// Phase 1: before the ClientHello is built.
    fn on_config_resolve(&self, config: &mut ConfigParams) -> (r: Result<(), Error>) {
        Ok(())
    }

    /// Phase 2: the cipher suite and extension lists, before they are assembled.
    fn on_components_ready(&self, cipher_suites: &mut Vec<CipherSuite>, extensions: &mut Vec<ClientExtension>) -> (r: Result<(), Error>) {
        Ok(())
    }

    /// Phase 3: the assembled payload, before it is marshaled.
    fn on_struct_ready(&self, payload: &mut ClientHelloPayload) -> (r: Result<(), Error>) {
        Ok(())
    }

    /// Phase 4: the marshaled bytes.
    fn transform_wire_bytes(&self, bytes: Vec<u8>) -> (r: Result<Vec<u8>, Error>) {
        Ok(bytes)
    }
}

} // verus!
