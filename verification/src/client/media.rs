//! Encrypted media: how uploads are sealed and opened, and how their keys travel.

use matrix_sdk_crypto::MediaEncryptionInfo;
use vstd::prelude::*;
use crate::client::PanClient;
use crate::json::Json;
use crate::store::{MediaInfo, PanStore, StoreError};
use crate::text::{find_char, has_prefix, trim_prefixes};

verus! {

/// What is needed to open a sealed attachment.
#[verifier::external_type_specification]
#[verifier::external_body]
pub struct ExMediaEncryptionInfo(MediaEncryptionInfo);

/// What is needed to open an attachment, as JSON.
pub uninterp spec fn info_view(info: MediaEncryptionInfo) -> crate::json::JsonView;

/// What `serde_json` reads out of a tree as the means to open an attachment, as JSON
/// again.
pub uninterp spec fn info_parsed(tree: crate::json::JsonView) -> Option<crate::json::JsonView>;

/// What a sealed attachment opens to with the given means; none where they do not fit.
pub uninterp spec fn attachment_opened(
    sealed: Seq<u8>,
    info: crate::json::JsonView,
) -> Option<Seq<u8>>;

/// The SHA-256 hash of some bytes, in Base64 without padding.
pub uninterp spec fn sha256_text(bytes: Seq<u8>) -> Seq<char>;

/// Whether a tree is an object of texts.
pub open spec fn holds_texts(tree: crate::json::JsonView) -> bool {
    &&& tree matches crate::json::JsonView::Object(m)
    &&& forall|k: Seq<char>| m.contains_key(k) ==> (#[trigger] m[k]) is Text
}

/// Whether a tree has the four fields of the means to open an attachment.
pub open spec fn media_shape(tree: crate::json::JsonView) -> bool {
    &&& tree matches crate::json::JsonView::Object(m)
    &&& forall|k: Seq<char>| #[trigger]
        m.contains_key(k) <==> k == "v"@ || k == "key"@ || k == "iv"@ || k == "hashes"@
    &&& m["v"@] is Text
    &&& m["iv"@] is Text
    &&& m["key"@] is Object
    &&& crate::json::reads_back(m["key"@])
    &&& holds_texts(m["hashes"@])
}

/// The hash in the means to open an attachment.
pub open spec fn hash_in(info: crate::json::JsonView) -> Option<Seq<char>> {
    match crate::json::field(info, "hashes"@) {
        Some(hashes) => crate::json::text_field(hashes, "sha256"@),
        None => None,
    }
}

/// The hashes of a sealed attachment.
pub open spec fn hashes_of(sealed: Seq<u8>) -> crate::json::JsonView {
    crate::json::JsonView::Object(
        Map::empty().insert("sha256"@, crate::json::JsonView::Text(sha256_text(sealed))),
    )
}

/// Whether some means are those that a sealed attachment gets: they are of the second
/// version, with an initialisation vector of 16 bytes, which is 22 letters long, and the
/// hash of the sealed bytes.
pub open spec fn seals(info: crate::json::JsonView, sealed: Seq<u8>) -> bool {
    &&& crate::json::text_field(info, "v"@) == Some("v2"@)
    &&& crate::json::text_field(info, "iv"@) matches Some(iv)
    &&& iv.len() == 22
    &&& crate::json::field(info, "hashes"@) == Some(hashes_of(sealed))
}

/// The hashes of a sealed attachment are read back as they were written.
pub proof fn hashes_read_back(sealed: Seq<u8>)
    ensures
        crate::json::reads_back(hashes_of(sealed)),
{
    reveal_strlit("sha256");
    reveal_strlit("$serde_json::private::RawValue");
    assert("sha256"@.len() == 6 && crate::json::raw_mark().len() == 30);
    reveal_with_fuel(crate::json::readable, 2);
    let m = hashes_of(sealed)->Object_0;
    assert forall|k: Seq<char>| m.contains_key(k) implies crate::json::readable(
        #[trigger] m[k],
        126,
    ) by {
        assert(k == "sha256"@);
    }
}

/// Whether `opened` is what comes of opening some bytes: what they open to, and nothing
/// where their hash is not the one in the means.
pub open spec fn right_opening(
    bytes: Seq<u8>,
    info: crate::json::JsonView,
    opened: Option<Seq<u8>>,
) -> bool {
    &&& opened == attachment_opened(bytes, info)
    &&& hash_in(info) != Some(sha256_text(bytes)) ==> opened is None
}

/// A sealed attachment opens only with its own hash: bytes with another one are refused.
pub proof fn changed_bytes_refused(
    info: crate::json::JsonView,
    sealed: Seq<u8>,
    other: Seq<u8>,
    opened: Option<Seq<u8>>,
)
    requires
        seals(info, sealed),
        sha256_text(other) != sha256_text(sealed),
        right_opening(other, info, opened),
    ensures
        opened is None,
{
}

/// `serde_json::to_value` of the means to open an attachment: it fails on none. The
/// value has four fields: a version and an initialisation vector, which are texts, a key,
/// which is an object with five set keys made of texts and a truth value, and hashes, which
/// are texts under any keys. Reading the value gives the same means again.
#[verifier::external_body]
fn info_value(info: &MediaEncryptionInfo) -> (r: Result<serde_json::Value, serde_json::Error>)
    ensures
        r is Ok,
        r matches Ok(v) ==> crate::json::value_tree(v) == info_view(*info),
        r matches Ok(v) ==> media_shape(crate::json::value_tree(v)),
        r matches Ok(v) ==> info_parsed(crate::json::value_tree(v)) == Some(
            crate::json::value_tree(v),
        ),
{
    serde_json::to_value(info)
}

/// `serde_json::from_value` into the means to open an attachment: what it reads, or
/// whether it refuses, depends on the tree alone.
#[verifier::external_body]
fn parse_info(v: serde_json::Value) -> (r: Result<MediaEncryptionInfo, serde_json::Error>)
    ensures
        r is Ok <==> info_parsed(crate::json::value_tree(v)) is Some,
        r matches Ok(info) ==> info_parsed(crate::json::value_tree(v)) == Some(info_view(info)),
{
    serde_json::from_value(v)
}

/// `AttachmentEncryptor` of `matrix_sdk_crypto`, read to its end: what comes out is as
/// long as what went in and opens to it with the means that come with it. These are of the
/// second version, with an initialisation vector of 16 bytes and, as their only hash, the
/// SHA-256 hash of what comes out. It fails only where its reader does, and the reader here,
/// a slice, only copies. The key is drawn at random.
#[verifier::external_body]
fn seal(data: &Vec<u8>) -> (r: Option<(Vec<u8>, MediaEncryptionInfo)>)
    ensures
        r is Some,
        r matches Some(s) ==> s.0@.len() == data@.len(),
        r matches Some(s) ==> attachment_opened(s.0@, info_view(s.1)) == Some(data@),
        r matches Some(s) ==> seals(info_view(s.1), s.0@),
{
    let mut reader = data.as_slice();
    let mut encryptor = matrix_sdk_crypto::AttachmentEncryptor::new(&mut reader);
    let mut sealed = Vec::new();
    std::io::Read::read_to_end(&mut encryptor, &mut sealed).ok()?;
    Some((sealed, encryptor.finish()))
}

/// `AttachmentDecryptor` of `matrix_sdk_crypto`, read to its end: what comes out, or
/// whether it refuses, depends on the sealed bytes and the means alone. It refuses bytes
/// whose SHA-256 hash is not the one in the means.
#[verifier::external_body]
fn unseal(sealed: &Vec<u8>, info: MediaEncryptionInfo) -> (r: Option<Vec<u8>>)
    ensures
        r is Some ==> hash_in(info_view(info)) == Some(sha256_text(sealed@)),
        r is Some <==> attachment_opened(sealed@, info_view(info)) is Some,
        r matches Some(data) ==> attachment_opened(sealed@, info_view(info)) == Some(data@),
{
    let mut reader = sealed.as_slice();
    let mut decryptor = matrix_sdk_crypto::AttachmentDecryptor::new(&mut reader, info).ok()?;
    let mut data = Vec::new();
    std::io::Read::read_to_end(&mut decryptor, &mut data).ok()?;
    Some(data)
}

/// The server and the path of an `mxc` address.
pub open spec fn mxc_parts(uri: Seq<char>) -> Option<(Seq<char>, Seq<char>)> {
    let rest = crate::text::strip_copies(uri, "mxc://"@);
    match rest.index_of_first('/') {
        Some(i) => Some((rest.take(i), rest.skip(i + 1))),
        None => None,
    }
}

/// The server and the path of an `mxc` address.
pub fn split_mxc<'a>(uri: &'a str) -> (r: Option<(&'a str, &'a str)>)
    ensures
        r is Some <==> mxc_parts(uri@) is Some,
        r matches Some(p) ==> mxc_parts(uri@) == Some((p.0@, p.1@)),
{
    let rest = trim_prefixes(uri, "mxc://");
    let len = rest.unicode_len();
    match find_char(rest, '/') {
        Some(i) => {
            let server = rest.substring_char(0, i);
            let path = rest.substring_char(i + 1, len);
            assert(server@ =~= rest@.take(i as int));
            assert(path@ =~= rest@.skip(i + 1));
            Some((server, path))
        },
        None => {
            proof {
                rest@.index_of_first_ensures('/');
            }
            None
        },
    }
}

/// A field, or null.
pub open spec fn field_or_null(tree: crate::json::JsonView, key: Seq<char>) -> crate::json::JsonView {
    match crate::json::field(tree, key) {
        Some(v) => v,
        None => crate::json::JsonView::Null,
    }
}

/// What is recorded of the means to open an attachment.
pub open spec fn media_from(
    info: crate::json::JsonView,
    mxc_server: Seq<char>,
    mxc_path: Seq<char>,
) -> crate::store::MediaView {
    crate::store::MediaView {
        mxc_server,
        mxc_path,
        key: field_or_null(info, "key"@),
        iv: match crate::json::text_field(info, "iv"@) {
            Some(iv) => iv,
            None => ""@,
        },
        hashes: field_or_null(info, "hashes"@),
    }
}

/// The means to open an attachment, out of what is recorded.
pub open spec fn info_from(media: crate::store::MediaView) -> crate::json::JsonView {
    crate::json::JsonView::Object(
        Map::empty().insert("v"@, crate::json::JsonView::Text("v2"@)).insert(
            "key"@,
            media.key,
        ).insert("iv"@, crate::json::JsonView::Text(media.iv)).insert("hashes"@, media.hashes),
    )
}

/// The `file` of an event with an encrypted attachment.
pub open spec fn file_json(url: Seq<char>, media: crate::store::MediaView) -> crate::json::JsonView {
    crate::json::with_field(info_from(media), "url"@, crate::json::JsonView::Text(url))
}

/// What was recorded of the means of the second version gives these means again.
pub proof fn media_recorded(
    info: crate::json::JsonView,
    mxc_server: Seq<char>,
    mxc_path: Seq<char>,
)
    requires
        media_shape(info),
        crate::json::text_field(info, "v"@) == Some("v2"@),
    ensures
        info_from(media_from(info, mxc_server, mxc_path)) == info,
{
    reveal_strlit("v");
    reveal_strlit("key");
    reveal_strlit("iv");
    reveal_strlit("hashes");
    assert("v"@.len() == 1 && "key"@.len() == 3 && "iv"@.len() == 2 && "hashes"@.len() == 6);
    let m = info->Object_0;
    assert(m.contains_key("v"@) && m.contains_key("key"@) && m.contains_key("iv"@)
        && m.contains_key("hashes"@));
    let new = info_from(media_from(info, mxc_server, mxc_path))->Object_0;
    assert(new =~= m);
}

/// A copy of a field, or null.
fn copy_or_null(tree: &Json, key: &str) -> (r: Json)
    ensures
        r@ == field_or_null(tree@, key@),
{
    match tree.get(key) {
        Some(v) => v.copy(),
        None => Json::Null,
    }
}

/// What is recorded of the means to open an attachment.
pub fn record_of(info: &MediaEncryptionInfo, mxc_server: &str, mxc_path: &str) -> (r: MediaInfo)
    ensures
        r@ == media_from(info_view(*info), mxc_server@, mxc_path@),
        media_shape(info_view(*info)),
        info_parsed(info_view(*info)) == Some(info_view(*info)),
{
    let tree = match info_value(info) {
        Ok(v) => Json::from_value(v),
        Err(_) => Json::Null,
    };
    MediaInfo {
        mxc_server: mxc_server.to_owned(),
        mxc_path: mxc_path.to_owned(),
        key: copy_or_null(&tree, "key"),
        iv: match tree.get_text("iv") {
            Some(iv) => iv.to_owned(),
            None => "".to_owned(),
        },
        hashes: copy_or_null(&tree, "hashes"),
    }
}

/// The means to open an attachment as JSON, out of what is recorded.
fn means_of(media: &MediaInfo) -> (r: Json)
    ensures
        r@ == info_from(media@),
{
    let mut tree = Json::object();
    tree.set("v", Json::text("v2"));
    tree.set("key", media.key.copy());
    tree.set("iv", Json::text(media.iv.as_str()));
    tree.set("hashes", media.hashes.copy());
    tree
}

/// The means to open an attachment, out of what is recorded; none where that makes no
/// sense.
pub fn info_of(media: &MediaInfo) -> (r: Option<MediaEncryptionInfo>)
    ensures
        r is Some <==> info_parsed(info_from(media@)) is Some,
        r matches Some(info) ==> info_parsed(info_from(media@)) == Some(info_view(info)),
{
    match parse_info(means_of(media).into_value()) {
        Ok(info) => Some(info),
        Err(_) => None,
    }
}

/// The content of an event, ready to be encrypted: where its `url` is an `mxc` address
/// with recorded keys, a `file` with these keys stands in its place.
pub open spec fn with_media_keys(
    c: crate::client::ClientView,
    s: crate::store::StoreView,
    room: Seq<char>,
    content: crate::json::JsonView,
) -> Result<crate::json::JsonView, StoreError> {
    match crate::json::text_field(content, "url"@) {
        Some(url) => if c.encrypted_rooms.contains(room) && "mxc://"@.is_prefix_of(url) {
            match mxc_parts(url) {
                Some((mxc_server, mxc_path)) => match crate::store::media_at(
                    s,
                    c.server.name,
                    mxc_server,
                    mxc_path,
                ) {
                    Ok(Some(media)) => Ok(
                        crate::json::with_field(
                            crate::json::without_field(content, "url"@),
                            "file"@,
                            file_json(url, media),
                        ),
                    ),
                    Ok(None) => Ok(content),
                    Err(e) => Err(e),
                },
                None => Ok(content),
            }
        } else {
            Ok(content)
        },
        None => Ok(content),
    }
}

impl PanClient {
    /// Seals the bytes of an upload.
    pub fn encrypt_attachment(data: &Vec<u8>) -> (r: Option<(Vec<u8>, MediaEncryptionInfo)>)
        ensures
            r is Some,
            r matches Some(s) ==> s.0@.len() == data@.len(),
            r matches Some(s) ==> attachment_opened(s.0@, info_view(s.1)) == Some(data@),
            r matches Some(s) ==> seals(info_view(s.1), s.0@),
    {
        seal(data)
    }

    /// Opens a sealed upload. Bytes whose hash is not the one in the means are refused.
    pub fn decrypt_attachment(data: &Vec<u8>, info: MediaEncryptionInfo) -> (r: Option<Vec<u8>>)
        ensures
            right_opening(
                data@,
                info_view(info),
                match r {
                    Some(p) => Some(p@),
                    None => None,
                },
            ),
    {
        unseal(data, info)
    }

    /// Puts the recorded keys of an attached medium into the content of an event. Where
    /// the records are damaged the content stays as it is.
    pub fn inject_media_keys(&self, store: &PanStore, room_id: &str, content: &mut Json) -> (r: Result<
        (),
        StoreError,
    >)
        requires
            store.wf(),
        ensures
            match with_media_keys(self@, store@, room_id@, old(content)@) {
                Ok(new) => r is Ok && final(content)@ == new,
                Err(e) => r == Err::<(), StoreError>(e) && final(content)@ == old(content)@,
            },
    {
        if !self.is_room_encrypted(room_id) {
            return Ok(());
        }
        let url = match content.get_text("url") {
            Some(u) => if has_prefix(u, "mxc://") {
                u.to_owned()
            } else {
                return Ok(());
            },
            None => {
                return Ok(());
            },
        };
        let (mxc_server, mxc_path) = match split_mxc(url.as_str()) {
            Some(p) => p,
            None => {
                return Ok(());
            },
        };
        let media = match store.load_media(self.server_name(), mxc_server, mxc_path) {
            Ok(Some(m)) => m,
            Ok(None) => {
                return Ok(());
            },
            Err(e) => {
                return Err(e);
            },
        };
        let mut file = means_of(&media);
        file.set("url", Json::text(url.as_str()));
        let _ = content.take("url");
        content.set("file", file);
        Ok(())
    }
}

} // verus!
