use vstd::prelude::*;

use crate::crypto::{envelope_outcome, random_bytes, unwrap_outcome, CryptoService};
use crate::encoding::base64_of;
use crate::error::GatewayError;
use crate::storage::FileStorage;

verus! {

/// Strategy asked of the redaction service when the client names none.
pub open spec fn default_strategy() -> Seq<char> {
    "replace"@
}

/// Display name used when the client gives none.
pub open spec fn default_display_name() -> Seq<char> {
    "file"@
}

/// The name an upload is stored under: display name, strategy and identifier.
pub open spec fn stored_name_of(name: Seq<char>, strategy: Seq<char>, file_id: Seq<char>) -> Seq<
    char,
> {
    name + "_"@ + strategy + "_redacted_"@ + file_id + ".txt"@
}

/// The hyphenated text of the version-4 UUID built from sixteen random bytes.
pub uninterp spec fn uuid_v4_text(random: Seq<u8>) -> Seq<char>;

/// Relies on `uuid::Builder::from_random_bytes` and the hyphenated form of the
/// resulting `Uuid`: 36 characters in groups of 8-4-4-4-12 hex digits, the
/// version digit `4` opening the third group.
#[verifier::external_body]
fn uuid_from_random(random: &[u8]) -> (r: String)
    requires
        random@.len() == 16,
    ensures
        r@ == uuid_v4_text(random@),
        r@.len() == 36,
        r@[8] == '-' && r@[13] == '-' && r@[18] == '-' && r@[23] == '-',
        r@[14] == '4',
{
    let mut bytes = [0u8; 16];
    bytes.copy_from_slice(random);
    uuid::Builder::from_random_bytes(bytes).into_uuid().hyphenated().to_string()
}

/// A fresh opaque identifier: a random (version-4) UUID in hyphenated form.
pub fn new_file_id() -> (r: Result<String, GatewayError>)
    ensures
        r matches Ok(id) ==> id@.len() == 36 && id@[8] == '-' && id@[13] == '-' && id@[18] == '-'
            && id@[23] == '-' && id@[14] == '4' && exists|b: Seq<u8>|
            b.len() == 16 && id@ == uuid_v4_text(b),
        r matches Err(e) ==> e == GatewayError::Internal,
{
    match random_bytes(16) {
        Some(b) => Ok(uuid_from_random(b.as_slice())),
        None => Err(GatewayError::Internal),
    }
}

/// An upload as the client submits it.
#[derive(Clone, Debug)]
pub struct UploadRequest {
    pub encrypted_data: String,
    pub encrypted_session_key: String,
    pub file_name: Option<String>,
    pub redaction_strategy: Option<String>,
}

impl UploadRequest {
    /// The redaction strategy the request asks for, or the default one.
    pub open spec fn strategy(&self) -> Seq<char> {
        match self.redaction_strategy {
            Some(s) => s@,
            None => default_strategy(),
        }
    }

    /// The display name the request gives, or the default one.
    pub open spec fn display_name(&self) -> Seq<char> {
        match self.file_name {
            Some(n) => n@,
            None => default_display_name(),
        }
    }
}

/// An upload whose content has been decrypted and awaits redaction.
#[derive(Clone, Debug)]
pub struct PendingUpload {
    pub file_id: String,
    pub display_name: String,
    pub strategy: String,
    pub plaintext: String,
}

/// What the client is told after a successful upload.
#[derive(Clone, Debug)]
pub struct UploadReceipt {
    pub file_id: String,
    pub filename: String,
    pub message: String,
}

/// The name an upload is stored under.
pub fn stored_file_name(name: &str, strategy: &str, file_id: &str) -> (r: String)
    ensures
        r@ == stored_name_of(name@, strategy@, file_id@),
{
    let mut s = name.to_owned();
    s.append("_");
    s.append(strategy);
    s.append("_redacted_");
    s.append(file_id);
    s.append(".txt");
    s
}

/// The strategy of the request, or the default one.
fn strategy_or_default(request: &UploadRequest) -> (r: String)
    ensures
        r@ == request.strategy(),
{
    match &request.redaction_strategy {
        Some(s) => s.clone(),
        None => "replace".to_owned(),
    }
}

/// The display name of the request, or the default one.
fn display_name_or_default(request: &UploadRequest) -> (r: String)
    ensures
        r@ == request.display_name(),
{
    match &request.file_name {
        Some(n) => n.clone(),
        None => "file".to_owned(),
    }
}

/// The plaintext of a pending-upload result, or its error.
pub open spec fn pending_text(r: Result<PendingUpload, GatewayError>) -> Result<
    Seq<char>,
    GatewayError,
> {
    match r {
        Ok(p) => Ok(p.plaintext@),
        Err(e) => Err(e),
    }
}

/// A pending upload carries the identifier it was given and the request's
/// strategy and display name.
pub open spec fn carries_request(p: PendingUpload, request: UploadRequest, file_id: Seq<char>) -> bool {
    &&& p.file_id@ == file_id
    &&& p.strategy@ == request.strategy()
    &&& p.display_name@ == request.display_name()
}

/// The stage after the session key is unwrapped: open the content with it.
/// Nothing is stored; the result awaits redaction.
pub fn open_upload(
    crypto: &CryptoService,
    request: &UploadRequest,
    file_id: String,
    session_key: &[u8],
) -> (r: Result<PendingUpload, GatewayError>)
    ensures
        envelope_outcome(session_key@, request.encrypted_data@, pending_text(r)),
        r matches Ok(p) ==> carries_request(p, *request, file_id@),
{
    let plaintext = match crypto.decrypt_file_with_session_key(
        request.encrypted_data.as_str(),
        session_key,
    ) {
        Ok(t) => t,
        Err(e) => return Err(e),
    };
    let ghost pt = plaintext@;
    let pending = PendingUpload {
        file_id,
        display_name: display_name_or_default(request),
        strategy: strategy_or_default(request),
        plaintext,
    };
    assert(pending.plaintext@ == pt);
    let r = Ok(pending);
    assert(pending_text(r) == Ok::<Seq<char>, GatewayError>(pt));
    r
}

/// The first stages of an upload: unwrap the session key, then open the
/// content with it. Nothing is stored; the result awaits redaction.
pub fn begin_upload(crypto: &CryptoService, request: &UploadRequest, file_id: String) -> (r:
    Result<PendingUpload, GatewayError>)
    ensures
        (forall|b: Seq<u8>| base64_of(b) != request.encrypted_session_key@) ==> (r matches Err(e)
            && e == GatewayError::Encoding),
        forall|b: Seq<u8>|
            #[trigger] base64_of(b) == request.encrypted_session_key@ ==> match unwrap_outcome(
                crypto.key_der(),
                b,
            ) {
                Ok(k) => envelope_outcome(k, request.encrypted_data@, pending_text(r)),
                Err(e) => r matches Err(e2) && e2 == e,
            },
        r matches Ok(p) ==> carries_request(p, *request, file_id@),
{
    let session_key = match crypto.decrypt_session_key(request.encrypted_session_key.as_str()) {
        Ok(k) => k,
        Err(e) => return Err(e),
    };
    open_upload(crypto, request, file_id, session_key.as_slice())
}

/// The last stages of an upload: on redacted text, store it under the
/// upload's identifier and name; on a redaction failure, store nothing.
pub fn finish_upload(
    store: &mut FileStorage,
    pending: PendingUpload,
    redacted: Result<String, GatewayError>,
) -> (r: Result<UploadReceipt, GatewayError>)
    requires
        old(store).wf(),
    ensures
        final(store).wf(),
        redacted matches Err(e) ==> (r matches Err(e2) && e2 == e && final(store)@ == old(store)@),
        redacted matches Ok(t) ==> (r matches Ok(rc) && {
            &&& rc.file_id@ == pending.file_id@
            &&& rc.filename@ == stored_name_of(
                pending.display_name@,
                pending.strategy@,
                pending.file_id@,
            )
            &&& final(store)@ == old(store)@.insert(pending.file_id@, (rc.filename@, t@))
        }),
{
    match redacted {
        Err(e) => Err(e),
        Ok(text) => {
            let filename = stored_file_name(
                pending.display_name.as_str(),
                pending.strategy.as_str(),
                pending.file_id.as_str(),
            );
            store.store_file(pending.file_id.as_str(), filename.as_str(), text.as_str());
            Ok(
                UploadReceipt {
                    file_id: pending.file_id,
                    filename,
                    message: "File uploaded and redacted successfully".to_owned(),
                },
            )
        },
    }
}

/// The read path: the (name, content) pair stored under `file_id`.
pub fn download(store: &FileStorage, file_id: &str) -> (r: Result<(String, String), GatewayError>)
    requires
        store.wf(),
    ensures
        store@.contains_key(file_id@) ==> (r matches Ok((n, c)) && (n@, c@) == store@[file_id@]),
        !store@.contains_key(file_id@) ==> (r matches Err(e) && e == GatewayError::NotFound),
{
    match store.get_file(file_id) {
        Some(pair) => Ok(pair),
        None => Err(GatewayError::NotFound),
    }
}

} // verus!
