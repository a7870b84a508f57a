//! Bandwidth credentials in their two formats, as the byte strings that are
//! encrypted and submitted to a gateway. The verification request inside a
//! credential is carried as opaque bytes.

use crate::bytes::{
    append_bytes, be_bytes, be_value, copy_range, lemma_be_bytes_len, lemma_be_bytes_of_value,
    lemma_be_value_of_bytes, lemma_pow256_bound, read_be, write_be,
};
use crate::errors::GatewayRequestsError;
use crate::primitives::string_from_utf8;
use vstd::prelude::*;
use vstd::utf8::{decode_utf8, encode_utf8, valid_utf8};

verus! {

/// The number of attributes of a credential that are public: the value of
/// the voucher and the information attached to it.
pub const PUBLIC_ATTRIBUTES: u32 = 2;

/// What a credential of the second format entitles to.
#[derive(Debug, Clone, Copy, PartialEq, Eq, Structural)]
pub enum CredentialType {
    Voucher,
    FreePass,
}

impl CredentialType {
    /// The byte that stands for this type.
    pub open spec fn spec_byte(self) -> u8 {
        match self {
            CredentialType::Voucher => 0u8,
            CredentialType::FreePass => 1u8,
        }
    }

    /// The type that `byte` stands for, if any.
    pub open spec fn of_byte(byte: u8) -> Option<CredentialType> {
        if byte == 0 {
            Some(CredentialType::Voucher)
        } else if byte == 1 {
            Some(CredentialType::FreePass)
        } else {
            None
        }
    }

    /// The byte that stands for this type.
    pub fn as_byte(self) -> (byte: u8)
        ensures
            byte == self.spec_byte(),
    {
        match self {
            CredentialType::Voucher => 0,
            CredentialType::FreePass => 1,
        }
    }

    /// The type that `byte` stands for; any other byte is reported.
    pub fn try_from_byte(byte: u8) -> (result: Result<CredentialType, GatewayRequestsError>)
        ensures
            match Self::of_byte(byte) {
                Some(typ) => result == Ok::<CredentialType, GatewayRequestsError>(typ),
                None => result == Err::<CredentialType, GatewayRequestsError>(
                    GatewayRequestsError::CredentialDeserializationFailureUnknownType(byte),
                ),
            },
    {
        if byte == 0 {
            Ok(CredentialType::Voucher)
        } else if byte == 1 {
            Ok(CredentialType::FreePass)
        } else {
            Err(GatewayRequestsError::CredentialDeserializationFailureUnknownType(byte))
        }
    }
}

/// What the two formats have in common, as a mathematical value.
pub struct CredentialBody {
    /// The leading count: all parameters in the first format, the private
    /// ones in the second.
    pub count: u32,
    /// The verification request.
    pub theta: Seq<u8>,
    pub voucher_value: u64,
    pub voucher_info: Seq<char>,
}

impl CredentialBody {
    /// Whether the lengths in the body can be written in eight bytes each.
    pub open spec fn well_formed(self) -> bool {
        &&& self.theta.len() <= u64::MAX
        &&& encode_utf8(self.voucher_info).len() <= u64::MAX
    }

    /// The body on the wire: every number most significant byte first, the
    /// verification request and the text each behind its length.
    pub open spec fn encoded(self) -> Seq<u8> {
        be_bytes(self.count as nat, 4) + be_bytes(self.theta.len(), 8) + self.theta + be_bytes(
            self.voucher_value as nat,
            8,
        ) + be_bytes(encode_utf8(self.voucher_info).len(), 8) + encode_utf8(self.voucher_info)
    }

    /// The body that `bytes` start with, and the number of bytes it takes.
    pub open spec fn decoded(bytes: Seq<u8>) -> Result<(CredentialBody, int), GatewayRequestsError> {
        if bytes.len() < 12 {
            Err(GatewayRequestsError::CredentialDeserializationFailureEOF)
        } else {
            let count = be_value(bytes.subrange(0, 4));
            let theta_len = be_value(bytes.subrange(4, 12)) as int;
            if bytes.len() - 12 < theta_len {
                Err(GatewayRequestsError::CredentialDeserializationFailureMalformedTheta)
            } else if bytes.len() - 12 - theta_len < 16 {
                Err(GatewayRequestsError::CredentialDeserializationFailureEOF)
            } else {
                let theta = bytes.subrange(12, 12 + theta_len);
                let value = be_value(bytes.subrange(12 + theta_len, 20 + theta_len));
                let info_len = be_value(bytes.subrange(20 + theta_len, 28 + theta_len)) as int;
                if bytes.len() - 28 - theta_len < info_len {
                    Err(GatewayRequestsError::CredentialDeserializationFailureEOF)
                } else {
                    let info = bytes.subrange(28 + theta_len, 28 + theta_len + info_len);
                    if !valid_utf8(info) {
                        Err(GatewayRequestsError::CredentialDeserializationFailureMalformedString)
                    } else {
                        Ok(
                            (
                                CredentialBody {
                                    count: count as u32,
                                    theta,
                                    voucher_value: value as u64,
                                    voucher_info: decode_utf8(info),
                                },
                                28 + theta_len + info_len,
                            ),
                        )
                    }
                }
            }
        }
    }
}

/// A body is read back from its bytes, whatever follows them.
pub proof fn lemma_credential_body_roundtrip(body: CredentialBody, rest: Seq<u8>)
    requires
        body.well_formed(),
    ensures
        CredentialBody::decoded(body.encoded() + rest) == Ok::<
            (CredentialBody, int),
            GatewayRequestsError,
        >((body, body.encoded().len() as int)),
        body.encoded().len() == 28 + body.theta.len() + encode_utf8(body.voucher_info).len(),
{
    let info = encode_utf8(body.voucher_info);
    let theta_len = body.theta.len() as int;
    let bytes = body.encoded() + rest;
    lemma_be_bytes_len(body.count as nat, 4);
    lemma_be_bytes_len(theta_len as nat, 8);
    lemma_be_bytes_len(body.voucher_value as nat, 8);
    lemma_be_bytes_len(info.len(), 8);
    lemma_pow256_bound(4);
    lemma_pow256_bound(8);
    lemma_be_value_of_bytes(body.count as nat, 4);
    lemma_be_value_of_bytes(theta_len as nat, 8);
    lemma_be_value_of_bytes(body.voucher_value as nat, 8);
    lemma_be_value_of_bytes(info.len(), 8);
    assert(bytes.subrange(0, 4) =~= be_bytes(body.count as nat, 4));
    assert(bytes.subrange(4, 12) =~= be_bytes(theta_len as nat, 8));
    assert(bytes.subrange(12, 12 + theta_len) =~= body.theta);
    assert(bytes.subrange(12 + theta_len, 20 + theta_len) =~= be_bytes(
        body.voucher_value as nat,
        8,
    ));
    assert(bytes.subrange(20 + theta_len, 28 + theta_len) =~= be_bytes(info.len(), 8));
    assert(bytes.subrange(28 + theta_len, 28 + theta_len + info.len() as int) =~= info);
    vstd::utf8::encode_utf8_valid_utf8(body.voucher_info);
    vstd::utf8::encode_utf8_decode_utf8(body.voucher_info);
}

/// Appends a body to `out`.
fn write_body(out: &mut Vec<u8>, count: u32, theta: &Vec<u8>, voucher_value: u64, info: &String)
    ensures
        final(out)@ == old(out)@ + (CredentialBody {
            count,
            theta: theta@,
            voucher_value,
            voucher_info: info@,
        }).encoded(),
{
    let ghost body = CredentialBody { count, theta: theta@, voucher_value, voucher_info: info@ };
    write_be(out, count as u64, 4);
    write_be(out, theta.len() as u64, 8);
    append_bytes(out, theta.as_slice());
    write_be(out, voucher_value, 8);
    let text = info.as_str().as_bytes();
    write_be(out, text.len() as u64, 8);
    append_bytes(out, text);
    assert(out@ =~= old(out)@ + body.encoded());
}

/// What `read_body` hands back: the fields of a body, and where it ended.
struct BodyFields {
    count: u32,
    theta: Vec<u8>,
    voucher_value: u64,
    voucher_info: String,
    end: usize,
}

/// Reads the body that `bytes` start with.
fn read_body(bytes: &[u8]) -> (result: Result<BodyFields, GatewayRequestsError>)
    ensures
        match result {
            Ok(fields) => CredentialBody::decoded(bytes@) == Ok::<
                (CredentialBody, int),
                GatewayRequestsError,
            >(
                (
                    CredentialBody {
                        count: fields.count,
                        theta: fields.theta@,
                        voucher_value: fields.voucher_value,
                        voucher_info: fields.voucher_info@,
                    },
                    fields.end as int,
                ),
            ) && fields.end <= bytes@.len(),
            Err(e) => CredentialBody::decoded(bytes@) == Err::<
                (CredentialBody, int),
                GatewayRequestsError,
            >(e),
        },
{
    let total = bytes.len();
    if total < 12 {
        return Err(GatewayRequestsError::CredentialDeserializationFailureEOF);
    }
    proof {
        lemma_be_bytes_of_value(bytes@.subrange(0, 4));
        lemma_pow256_bound(4);
    }
    let count = read_be(bytes, 0, 4) as u32;
    let theta_len = read_be(bytes, 4, 8);
    if ((total - 12) as u64) < theta_len {
        return Err(GatewayRequestsError::CredentialDeserializationFailureMalformedTheta);
    }
    let theta_len = theta_len as usize;
    if total - 12 - theta_len < 16 {
        return Err(GatewayRequestsError::CredentialDeserializationFailureEOF);
    }
    let theta = copy_range(bytes, 12, 12 + theta_len);
    let voucher_value = read_be(bytes, 12 + theta_len, 8);
    let info_len = read_be(bytes, 20 + theta_len, 8);
    if ((total - 28 - theta_len) as u64) < info_len {
        return Err(GatewayRequestsError::CredentialDeserializationFailureEOF);
    }
    let info_len = info_len as usize;
    let info = copy_range(bytes, 28 + theta_len, 28 + theta_len + info_len);
    match string_from_utf8(info) {
        None => Err(GatewayRequestsError::CredentialDeserializationFailureMalformedString),
        Some(voucher_info) => Ok(
            BodyFields { count, theta, voucher_value, voucher_info, end: 28 + theta_len + info_len },
        ),
    }
}

/// A credential of the first format.
#[derive(Debug, Clone, PartialEq, Eq)]
pub struct OldV1Credential {
    pub n_params: u32,
    pub theta: Vec<u8>,
    pub voucher_value: u64,
    pub voucher_info: String,
    pub epoch_id: u64,
}

/// A credential of the first format as a mathematical value.
pub struct OldV1CredentialView {
    pub body: CredentialBody,
    pub epoch_id: u64,
}

impl View for OldV1Credential {
    type V = OldV1CredentialView;

    open spec fn view(&self) -> OldV1CredentialView {
        OldV1CredentialView {
            body: CredentialBody {
                count: self.n_params,
                theta: self.theta@,
                voucher_value: self.voucher_value,
                voucher_info: self.voucher_info@,
            },
            epoch_id: self.epoch_id,
        }
    }
}

impl OldV1CredentialView {
    /// The credential on the wire: the body, then the epoch.
    pub open spec fn encoded(self) -> Seq<u8> {
        self.body.encoded() + be_bytes(self.epoch_id as nat, 8)
    }

    /// The credential that `bytes` are. Bytes after the epoch are ignored.
    pub open spec fn decoded(bytes: Seq<u8>) -> Result<OldV1CredentialView, GatewayRequestsError> {
        match CredentialBody::decoded(bytes) {
            Err(e) => Err(e),
            Ok((body, end)) => if bytes.len() - end < 8 {
                Err(GatewayRequestsError::CredentialDeserializationFailureEOF)
            } else {
                Ok(
                    OldV1CredentialView {
                        body,
                        epoch_id: be_value(bytes.subrange(end, end + 8)) as u64,
                    },
                )
            },
        }
    }
}

impl OldV1Credential {
    /// A credential with these fields.
    pub fn new(
        n_params: u32,
        theta: Vec<u8>,
        voucher_value: u64,
        voucher_info: String,
        epoch_id: u64,
    ) -> (credential: OldV1Credential)
        ensures
            credential.n_params == n_params,
            credential.theta == theta,
            credential.voucher_value == voucher_value,
            credential.voucher_info == voucher_info,
            credential.epoch_id == epoch_id,
    {
        OldV1Credential { n_params, theta, voucher_value, voucher_info, epoch_id }
    }

    /// The credential on the wire.
    pub fn as_bytes(&self) -> (bytes: Vec<u8>)
        ensures
            bytes@ == self@.encoded(),
    {
        let mut out: Vec<u8> = Vec::new();
        write_body(&mut out, self.n_params, &self.theta, self.voucher_value, &self.voucher_info);
        write_be(&mut out, self.epoch_id, 8);
        assert(out@ =~= self@.encoded());
        out
    }

    /// Reads a credential from its bytes, and says what is wrong with bytes
    /// that are none.
    pub fn from_bytes(bytes: &[u8]) -> (result: Result<OldV1Credential, GatewayRequestsError>)
        ensures
            match result {
                Ok(credential) => OldV1CredentialView::decoded(bytes@) == Ok::<
                    OldV1CredentialView,
                    GatewayRequestsError,
                >(credential@),
                Err(e) => OldV1CredentialView::decoded(bytes@) == Err::<
                    OldV1CredentialView,
                    GatewayRequestsError,
                >(e),
            },
    {
        let fields = match read_body(bytes) {
            Ok(fields) => fields,
            Err(e) => {
                return Err(e);
            },
        };
        if bytes.len() - fields.end < 8 {
            return Err(GatewayRequestsError::CredentialDeserializationFailureEOF);
        }
        let epoch_id = read_be(bytes, fields.end, 8);
        Ok(
            OldV1Credential {
                n_params: fields.count,
                theta: fields.theta,
                voucher_value: fields.voucher_value,
                voucher_info: fields.voucher_info,
                epoch_id,
            },
        )
    }
}

/// A credential of the first format is read back from its bytes.
pub proof fn lemma_v1_credential_roundtrip(credential: OldV1CredentialView)
    requires
        credential.body.well_formed(),
    ensures
        OldV1CredentialView::decoded(credential.encoded()) == Ok::<
            OldV1CredentialView,
            GatewayRequestsError,
        >(credential),
{
    let tail = be_bytes(credential.epoch_id as nat, 8);
    let bytes = credential.encoded();
    lemma_credential_body_roundtrip(credential.body, tail);
    lemma_be_bytes_len(credential.epoch_id as nat, 8);
    lemma_pow256_bound(8);
    lemma_be_value_of_bytes(credential.epoch_id as nat, 8);
    let end = credential.body.encoded().len() as int;
    assert(bytes.subrange(end, end + 8) =~= tail);
}

/// The data of a credential of the second format.
#[derive(Debug, Clone, PartialEq, Eq)]
pub struct CredentialSpendingData {
    pub embedded_private_attributes: u32,
    pub verify_credential_request: Vec<u8>,
    pub voucher_value: u64,
    pub voucher_info: String,
    pub typ: CredentialType,
    pub epoch_id: u64,
}

/// A credential of the second format, as it is submitted.
#[derive(Debug, Clone, PartialEq, Eq)]
pub struct CredentialSpendingRequest {
    pub data: CredentialSpendingData,
}

/// A credential of the second format as a mathematical value.
pub struct CredentialSpendingView {
    pub body: CredentialBody,
    pub typ: CredentialType,
    pub epoch_id: u64,
}

impl View for CredentialSpendingData {
    type V = CredentialSpendingView;

    open spec fn view(&self) -> CredentialSpendingView {
        CredentialSpendingView {
            body: CredentialBody {
                count: self.embedded_private_attributes,
                theta: self.verify_credential_request@,
                voucher_value: self.voucher_value,
                voucher_info: self.voucher_info@,
            },
            typ: self.typ,
            epoch_id: self.epoch_id,
        }
    }
}

impl View for CredentialSpendingRequest {
    type V = CredentialSpendingView;

    open spec fn view(&self) -> CredentialSpendingView {
        self.data@
    }
}

impl CredentialSpendingView {
    /// The credential on the wire: the body, the type, then the epoch.
    pub open spec fn encoded(self) -> Seq<u8> {
        self.body.encoded() + seq![self.typ.spec_byte()] + be_bytes(self.epoch_id as nat, 8)
    }

    /// The credential that `bytes` are. Bytes after the epoch are ignored.
    pub open spec fn decoded(bytes: Seq<u8>) -> Result<
        CredentialSpendingView,
        GatewayRequestsError,
    > {
        match CredentialBody::decoded(bytes) {
            Err(e) => Err(e),
            Ok((body, end)) => if bytes.len() - end < 1 {
                Err(GatewayRequestsError::CredentialDeserializationFailureEOF)
            } else {
                match CredentialType::of_byte(bytes[end]) {
                    None => Err(
                        GatewayRequestsError::CredentialDeserializationFailureUnknownType(
                            bytes[end],
                        ),
                    ),
                    Some(typ) => if bytes.len() - end < 9 {
                        Err(GatewayRequestsError::CredentialDeserializationFailureEOF)
                    } else {
                        Ok(
                            CredentialSpendingView {
                                body,
                                typ,
                                epoch_id: be_value(bytes.subrange(end + 1, end + 9)) as u64,
                            },
                        )
                    },
                }
            },
        }
    }

    /// The credential of the second format that says what `old` says, if
    /// `old` embeds at least its public attributes.
    pub open spec fn upgraded(old: OldV1CredentialView) -> Result<
        CredentialSpendingView,
        GatewayRequestsError,
    > {
        if old.body.count < PUBLIC_ATTRIBUTES {
            Err(GatewayRequestsError::InvalidNumberOfEmbededParameters(old.body.count))
        } else {
            Ok(
                CredentialSpendingView {
                    body: CredentialBody {
                        count: (old.body.count - PUBLIC_ATTRIBUTES) as u32,
                        theta: old.body.theta,
                        voucher_value: old.body.voucher_value,
                        voucher_info: old.body.voucher_info,
                    },
                    typ: CredentialType::Voucher,
                    epoch_id: old.epoch_id,
                },
            )
        }
    }
}

impl CredentialSpendingData {
    /// The data on the wire.
    pub fn to_bytes(&self) -> (bytes: Vec<u8>)
        ensures
            bytes@ == self@.encoded(),
    {
        let mut out: Vec<u8> = Vec::new();
        write_body(
            &mut out,
            self.embedded_private_attributes,
            &self.verify_credential_request,
            self.voucher_value,
            &self.voucher_info,
        );
        out.push(self.typ.as_byte());
        write_be(&mut out, self.epoch_id, 8);
        assert(out@ =~= self@.encoded());
        out
    }

    /// Reads the data from its bytes, and says what is wrong with bytes that
    /// are none.
    pub fn try_from_bytes(bytes: &[u8]) -> (result: Result<
        CredentialSpendingData,
        GatewayRequestsError,
    >)
        ensures
            match result {
                Ok(data) => CredentialSpendingView::decoded(bytes@) == Ok::<
                    CredentialSpendingView,
                    GatewayRequestsError,
                >(data@),
                Err(e) => CredentialSpendingView::decoded(bytes@) == Err::<
                    CredentialSpendingView,
                    GatewayRequestsError,
                >(e),
            },
    {
        let fields = match read_body(bytes) {
            Ok(fields) => fields,
            Err(e) => {
                return Err(e);
            },
        };
        if bytes.len() - fields.end < 1 {
            return Err(GatewayRequestsError::CredentialDeserializationFailureEOF);
        }
        let typ = match CredentialType::try_from_byte(bytes[fields.end]) {
            Ok(typ) => typ,
            Err(e) => {
                return Err(e);
            },
        };
        if bytes.len() - fields.end < 9 {
            return Err(GatewayRequestsError::CredentialDeserializationFailureEOF);
        }
        let epoch_id = read_be(bytes, fields.end + 1, 8);
        Ok(
            CredentialSpendingData {
                embedded_private_attributes: fields.count,
                verify_credential_request: fields.theta,
                voucher_value: fields.voucher_value,
                voucher_info: fields.voucher_info,
                typ,
                epoch_id,
            },
        )
    }

    /// The data that says what a credential of the first format says. A
    /// credential that embeds fewer parameters than its public attributes is
    /// refused with their number.
    pub fn try_from_v1(old: OldV1Credential) -> (result: Result<
        CredentialSpendingData,
        GatewayRequestsError,
    >)
        ensures
            match result {
                Ok(data) => CredentialSpendingView::upgraded(old@) == Ok::<
                    CredentialSpendingView,
                    GatewayRequestsError,
                >(data@),
                Err(e) => CredentialSpendingView::upgraded(old@) == Err::<
                    CredentialSpendingView,
                    GatewayRequestsError,
                >(e),
            },
    {
        if old.n_params < PUBLIC_ATTRIBUTES {
            return Err(GatewayRequestsError::InvalidNumberOfEmbededParameters(old.n_params));
        }
        Ok(
            CredentialSpendingData {
                embedded_private_attributes: old.n_params - PUBLIC_ATTRIBUTES,
                verify_credential_request: old.theta,
                voucher_value: old.voucher_value,
                voucher_info: old.voucher_info,
                typ: CredentialType::Voucher,
                epoch_id: old.epoch_id,
            },
        )
    }
}

impl CredentialSpendingRequest {
    /// The request that submits `data`.
    pub fn new(data: CredentialSpendingData) -> (request: CredentialSpendingRequest)
        ensures
            request.data == data,
    {
        CredentialSpendingRequest { data }
    }

    /// The request on the wire.
    pub fn to_bytes(&self) -> (bytes: Vec<u8>)
        ensures
            bytes@ == self@.encoded(),
    {
        self.data.to_bytes()
    }

    /// Reads a request from its bytes, and says what is wrong with bytes
    /// that are none.
    pub fn try_from_bytes(bytes: &[u8]) -> (result: Result<
        CredentialSpendingRequest,
        GatewayRequestsError,
    >)
        ensures
            match result {
                Ok(request) => CredentialSpendingView::decoded(bytes@) == Ok::<
                    CredentialSpendingView,
                    GatewayRequestsError,
                >(request@),
                Err(e) => CredentialSpendingView::decoded(bytes@) == Err::<
                    CredentialSpendingView,
                    GatewayRequestsError,
                >(e),
            },
    {
        match CredentialSpendingData::try_from_bytes(bytes) {
            Ok(data) => Ok(CredentialSpendingRequest { data }),
            Err(e) => Err(e),
        }
    }
}

/// A credential of the second format is read back from its bytes.
pub proof fn lemma_v2_credential_roundtrip(credential: CredentialSpendingView)
    requires
        credential.body.well_formed(),
    ensures
        CredentialSpendingView::decoded(credential.encoded()) == Ok::<
            CredentialSpendingView,
            GatewayRequestsError,
        >(credential),
{
    let epoch = be_bytes(credential.epoch_id as nat, 8);
    let tail = seq![credential.typ.spec_byte()] + epoch;
    let bytes = credential.encoded();
    assert(bytes =~= credential.body.encoded() + tail);
    lemma_credential_body_roundtrip(credential.body, tail);
    lemma_be_bytes_len(credential.epoch_id as nat, 8);
    lemma_pow256_bound(8);
    lemma_be_value_of_bytes(credential.epoch_id as nat, 8);
    let end = credential.body.encoded().len() as int;
    assert(bytes[end] == credential.typ.spec_byte());
    assert(bytes.subrange(end + 1, end + 9) =~= epoch);
}

} // verus!
