//! Object storage: S3 settings and buckets, upload assembly, chunked
//! delivery, and object references kept in the replicated store.

use vstd::prelude::*;
use vstd::slice::{slice_subrange, slice_to_vec};
use vstd::string::*;

use crate::object_ref::{obj_ref_key, obj_ref_value, serialize_obj_ref_key, serialize_obj_ref_value};

verus! {

/// Size of the pieces in which objects are streamed to clients.
pub const OBJECT_CHUNK_SIZE: usize = 1024;

/// Where and how objects are kept in S3.
pub struct S3Config {
    pub endpoint: String,
    pub path_style: bool,
    pub bucket: String,
    pub secret_key: String,
    pub access_key_id: String,
}

/// Declares `s3::creds::Credentials`, the keys a bucket signs requests with.
#[verifier::external_type_specification]
#[verifier::external_body]
pub struct ExCredentials(s3::creds::Credentials);

/// Declares `s3::creds::error::CredentialsError`.
#[verifier::external_type_specification]
#[verifier::external_body]
pub struct ExCredentialsError(s3::creds::error::CredentialsError);

/// Declares `s3::Bucket`, a handle on one S3 bucket.
#[verifier::external_type_specification]
#[verifier::external_body]
pub struct ExBucket(s3::Bucket);

/// Declares `s3::error::S3Error`.
#[verifier::external_type_specification]
#[verifier::external_body]
pub struct ExS3Error(s3::error::S3Error);

/// The bucket name that an `s3::Bucket` handle holds (its `name` field).
pub uninterp spec fn s3_bucket_name(bucket: s3::Bucket) -> Seq<char>;

/// The endpoint of the custom region that an `s3::Bucket` handle holds, as
/// `Region::endpoint` gives it for a custom region.
pub uninterp spec fn s3_bucket_endpoint(bucket: s3::Bucket) -> Seq<char>;

/// Whether an `s3::Bucket` handle addresses objects with path-style URLs
/// (its `path_style` field, as `Bucket::is_path_style` gives it).
pub uninterp spec fn s3_bucket_path_style(bucket: s3::Bucket) -> bool;

/// The name of the custom region that an `s3::Bucket` handle holds.
pub uninterp spec fn s3_bucket_region_name(bucket: s3::Bucket) -> Seq<char>;

/// The access key, secret key, security token and session token that an
/// `s3::creds::Credentials` value holds (its public fields).
pub uninterp spec fn s3_credential_fields(credentials: s3::creds::Credentials) -> (
    Option<Seq<char>>,
    Option<Seq<char>>,
    Option<Seq<char>>,
    Option<Seq<char>>,
);

/// The access key, secret key, security token and session token of the
/// credentials that an `s3::Bucket` handle keeps behind its shared lock.
/// Nothing in this crate writes that lock; `credentials_refresh` leaves
/// credentials without an expiration as they are.
pub uninterp spec fn s3_bucket_credential_fields(bucket: s3::Bucket) -> (
    Option<Seq<char>>,
    Option<Seq<char>>,
    Option<Seq<char>>,
    Option<Seq<char>>,
);

/// The view of an optional text.
pub open spec fn opt_text(t: Option<&str>) -> Option<Seq<char>> {
    match t {
        Some(s) => Some(s@),
        None => None,
    }
}

/// Wraps `s3::creds::Credentials::new` with a given access key. Its source
/// then returns `Ok` without reading the environment or the profile, with
/// exactly the given keys and tokens and no expiration.
#[verifier::external_body]
fn static_credentials(
    access_key_id: &str,
    secret_key: Option<&str>,
    security_token: Option<&str>,
    session_token: Option<&str>,
    profile: Option<&str>,
) -> (r: Result<s3::creds::Credentials, s3::creds::error::CredentialsError>)
    ensures
        r is Ok,
        s3_credential_fields(r->Ok_0) == (
            Some(access_key_id@),
            opt_text(secret_key),
            opt_text(security_token),
            opt_text(session_token),
        ),
{
    s3::creds::Credentials::new(Some(access_key_id), secret_key, security_token, session_token, profile)
}

/// Wraps `s3::Bucket::new` in a custom region. Its source returns `Ok` in
/// every case, with a handle whose name, region name and endpoint are the
/// given ones, which is not path style, and which keeps the given
/// credentials.
#[verifier::external_body]
fn bucket_at(
    name: &str,
    region_name: &str,
    endpoint: String,
    credentials: s3::creds::Credentials,
) -> (r: Result<s3::Bucket, s3::error::S3Error>)
    ensures
        r is Ok,
        s3_bucket_name(r->Ok_0) == name@,
        s3_bucket_region_name(r->Ok_0) == region_name@,
        s3_bucket_endpoint(r->Ok_0) == endpoint@,
        !s3_bucket_path_style(r->Ok_0),
        s3_bucket_credential_fields(r->Ok_0) == s3_credential_fields(credentials),
{
    s3::Bucket::new(
        name,
        s3::Region::Custom { region: region_name.to_string(), endpoint },
        credentials,
    )
}

/// Wraps `s3::Bucket::with_path_style`: a handle with the same name,
/// region and credentials, addressed with path-style URLs.
#[verifier::external_body]
fn path_style_bucket(bucket: &s3::Bucket) -> (b: s3::Bucket)
    ensures
        s3_bucket_name(b) == s3_bucket_name(*bucket),
        s3_bucket_region_name(b) == s3_bucket_region_name(*bucket),
        s3_bucket_endpoint(b) == s3_bucket_endpoint(*bucket),
        s3_bucket_path_style(b),
        s3_bucket_credential_fields(b) == s3_bucket_credential_fields(*bucket),
{
    bucket.with_path_style()
}

/// The bucket that `config` names, in a custom region with an empty name at
/// its endpoint, signed with its access key and secret key and no tokens,
/// addressed path style where the configuration says so. It never fails.
pub fn open_bucket(config: &S3Config) -> (b: s3::Bucket)
    ensures
        s3_bucket_name(b) == config.bucket@,
        s3_bucket_region_name(b) == Seq::<char>::empty(),
        s3_bucket_endpoint(b) == config.endpoint@,
        s3_bucket_path_style(b) == config.path_style,
        s3_bucket_credential_fields(b) == (
            Some(config.access_key_id@),
            Some(config.secret_key@),
            None::<Seq<char>>,
            None::<Seq<char>>,
        ),
{
    let credentials = static_credentials(
        config.access_key_id.as_str(),
        Some(config.secret_key.as_str()),
        None,
        None,
        None,
    ).unwrap();
    proof {
        reveal_strlit("");
    }
    let bucket = bucket_at(config.bucket.as_str(), "", config.endpoint.clone(), credentials).unwrap();
    if config.path_style {
        path_style_bucket(&bucket)
    } else {
        bucket
    }
}

/// An S3 request that the object storage service makes.
pub enum S3Request {
    Put,
    Get,
}

/// Message for a put answered with another status than 200.
pub open spec fn put_failure_message() -> &'static str {
    "Failed to put object to S3"
}

/// Message for a get answered with another status than 200.
pub open spec fn get_failure_message() -> &'static str {
    "Failed to get object from S3"
}

/// Judges the HTTP status S3 answered a request with: only 200 is success.
pub fn check_s3_status(request: S3Request, status_code: u16) -> (r: Result<(), &'static str>)
    ensures
        r is Ok <==> status_code == 200,
        status_code != 200 && request is Put ==> r == Err::<(), &'static str>(
            put_failure_message(),
        ),
        status_code != 200 && request is Get ==> r == Err::<(), &'static str>(
            get_failure_message(),
        ),
{
    if status_code == 200 {
        Ok(())
    } else {
        match request {
            S3Request::Put => Err("Failed to put object to S3"),
            S3Request::Get => Err("Failed to get object from S3"),
        }
    }
}

/// An object being uploaded in parts: the bytes so far, and the object key
/// that the latest part named.
pub struct UploadBuffer {
    pub data: Vec<u8>,
    pub object_key: String,
}

impl UploadBuffer {
    /// An upload with no parts yet: no bytes, an empty key.
    pub fn new() -> (u: UploadBuffer)
        ensures
            u.data@ == Seq::<u8>::empty(),
            u.object_key@ == Seq::<char>::empty(),
    {
        UploadBuffer { data: Vec::new(), object_key: String::new() }
    }

    /// Takes in one part: its bytes follow those so far, and its key
    /// replaces the key so far.
    pub fn absorb(&mut self, chunk: Vec<u8>, object_key: String)
        ensures
            final(self).data@ == old(self).data@ + chunk@,
            final(self).object_key == object_key,
    {
        let mut chunk = chunk;
        self.data.append(&mut chunk);
        self.object_key = object_key;
    }
}

/// Appends a received piece to the bytes received so far.
pub fn append_chunk(data: &mut Vec<u8>, chunk: Vec<u8>)
    ensures
        final(data)@ == old(data)@ + chunk@,
{
    let mut chunk = chunk;
    data.append(&mut chunk);
}

/// `s` cut into pieces of `size` bytes, the last one possibly shorter; no
/// piece for empty data.
pub open spec fn chunks_of(s: Seq<u8>, size: nat) -> Seq<Seq<u8>>
    decreases s.len(),
{
    if s.len() == 0 || size == 0 {
        Seq::empty()
    } else if s.len() <= size {
        seq![s]
    } else {
        seq![s.take(size as int)] + chunks_of(s.skip(size as int), size)
    }
}

/// `s` cut into as many whole pieces of `size` bytes as it holds; a
/// shorter tail is left out.
pub open spec fn whole_chunks_of(s: Seq<u8>, size: nat) -> Seq<Seq<u8>>
    decreases s.len(),
{
    if size == 0 || s.len() < size {
        Seq::empty()
    } else {
        seq![s.take(size as int)] + whole_chunks_of(s.skip(size as int), size)
    }
}

/// The byte views of a list of pieces.
pub open spec fn chunk_views(v: Seq<Vec<u8>>) -> Seq<Seq<u8>> {
    v.map_values(|c: Vec<u8>| c@)
}

/// Put together again, the pieces of `s` are `s`; each piece holds between
/// one and `size` bytes.
pub proof fn lemma_chunks_reassemble(s: Seq<u8>, size: nat)
    requires
        size > 0,
    ensures
        chunks_of(s, size).flatten() == s,
        forall|k: int|
            0 <= k < chunks_of(s, size).len() ==> 0 < #[trigger] chunks_of(s, size)[k].len()
                <= size,
    decreases s.len(),
{
    let c = chunks_of(s, size);
    if s.len() == 0 {
    } else if s.len() <= size {
        assert(c.drop_first() =~= Seq::<Seq<u8>>::empty());
        assert(c.flatten() =~= s + Seq::<Seq<u8>>::empty().flatten());
        assert(c.flatten() =~= s);
    } else {
        let rest = chunks_of(s.skip(size as int), size);
        lemma_chunks_reassemble(s.skip(size as int), size);
        assert(c.first() == s.take(size as int));
        assert(c.drop_first() =~= rest);
        assert(c.flatten() == s.take(size as int) + rest.flatten());
        assert(s.take(size as int) + s.skip(size as int) =~= s);
        assert forall|k: int| 0 <= k < c.len() implies 0 < #[trigger] c[k].len() <= size by {
            if k > 0 {
                assert(c[k] == rest[k - 1]);
            }
        }
    }
}

/// The whole pieces of `s` hold `size` bytes each and, put together, are
/// the start of `s`; fewer than `size` bytes are left after them.
pub proof fn lemma_whole_chunks_prefix(s: Seq<u8>, size: nat)
    requires
        size > 0,
    ensures
        whole_chunks_of(s, size).flatten().len() <= s.len(),
        whole_chunks_of(s, size).flatten() == s.take(whole_chunks_of(s, size).flatten().len() as int),
        s.len() - whole_chunks_of(s, size).flatten().len() < size,
        forall|k: int|
            0 <= k < whole_chunks_of(s, size).len() ==> (#[trigger] whole_chunks_of(s, size)[k]).len()
                == size,
    decreases s.len(),
{
    let c = whole_chunks_of(s, size);
    if s.len() < size {
        assert(s.take(0) =~= Seq::<u8>::empty());
    } else {
        let t = s.skip(size as int);
        let rest = whole_chunks_of(t, size);
        lemma_whole_chunks_prefix(t, size);
        assert(c.first() == s.take(size as int));
        assert(c.drop_first() =~= rest);
        assert(c.flatten() == s.take(size as int) + rest.flatten());
        let m = rest.flatten().len() as int;
        assert(rest.flatten() == t.take(m));
        assert(s.take(size as int) + t.take(m) =~= s.take(size + m));
        assert forall|k: int| 0 <= k < c.len() implies (#[trigger] c[k]).len() == size by {
            if k > 0 {
                assert(c[k] == rest[k - 1]);
            }
        }
    }
}

/// A copy of the bytes `lo..hi` of `data`.
fn copy_range(data: &Vec<u8>, lo: usize, hi: usize) -> (r: Vec<u8>)
    requires
        lo <= hi <= data@.len(),
    ensures
        r@ == data@.subrange(lo as int, hi as int),
{
    slice_to_vec(slice_subrange(data.as_slice(), lo, hi))
}

/// `data` cut into pieces of `size` bytes, the last one possibly shorter.
pub fn split_chunks(data: &Vec<u8>, size: usize) -> (r: Vec<Vec<u8>>)
    requires
        size > 0,
    ensures
        chunk_views(r@) == chunks_of(data@, size as nat),
{
    let n = data.len();
    let mut out: Vec<Vec<u8>> = Vec::new();
    let mut i: usize = 0;
    proof {
        assert(data@.skip(0) =~= data@);
        assert(chunk_views(out@) =~= Seq::<Seq<u8>>::empty());
        assert(Seq::<Seq<u8>>::empty() + chunks_of(data@, size as nat) =~= chunks_of(data@, size as nat));
    }
    while i < n
        invariant
            n == data@.len(),
            size > 0,
            i <= n,
            chunk_views(out@) + chunks_of(data@.skip(i as int), size as nat) == chunks_of(
                data@,
                size as nat,
            ),
        decreases n - i,
    {
        let ghost rest = data@.skip(i as int);
        let end = if n - i <= size {
            n
        } else {
            i + size
        };
        let piece = copy_range(data, i, end);
        proof {
            let tail = data@.skip(end as int);
            if n - i <= size {
                assert(piece@ =~= rest);
                assert(tail =~= Seq::<u8>::empty());
                assert(chunks_of(rest, size as nat) == seq![rest]);
            } else {
                assert(piece@ =~= rest.take(size as int));
                assert(rest.skip(size as int) =~= tail);
            }
            assert(chunks_of(rest, size as nat) =~= seq![piece@] + chunks_of(tail, size as nat));
            assert(chunk_views(out@.push(piece)) =~= chunk_views(out@).push(piece@));
            assert(chunk_views(out@).push(piece@) + chunks_of(tail, size as nat) =~= chunk_views(
                out@,
            ) + (seq![piece@] + chunks_of(tail, size as nat)));
        }
        out.push(piece);
        i = end;
    }
    proof {
        assert(data@.skip(n as int) =~= Seq::<u8>::empty());
        assert(chunk_views(out@) + Seq::<Seq<u8>>::empty() =~= chunk_views(out@));
    }
    out
}

/// `data` cut into whole pieces of `size` bytes; a shorter tail is left
/// out, as reading fixed-size blocks until one comes up short does.
pub fn split_whole_chunks(data: &Vec<u8>, size: usize) -> (r: Vec<Vec<u8>>)
    requires
        size > 0,
    ensures
        chunk_views(r@) == whole_chunks_of(data@, size as nat),
{
    let n = data.len();
    let mut out: Vec<Vec<u8>> = Vec::new();
    let mut i: usize = 0;
    proof {
        assert(data@.skip(0) =~= data@);
        assert(chunk_views(out@) =~= Seq::<Seq<u8>>::empty());
        assert(Seq::<Seq<u8>>::empty() + whole_chunks_of(data@, size as nat) =~= whole_chunks_of(data@, size as nat));
    }
    while i < n && n - i >= size
        invariant
            n == data@.len(),
            size > 0,
            i <= n,
            chunk_views(out@) + whole_chunks_of(data@.skip(i as int), size as nat)
                == whole_chunks_of(data@, size as nat),
        decreases n - i,
    {
        let ghost rest = data@.skip(i as int);
        let end = i + size;
        let piece = copy_range(data, i, end);
        proof {
            let tail = data@.skip(end as int);
            assert(piece@ =~= rest.take(size as int));
            assert(rest.skip(size as int) =~= tail);
            assert(whole_chunks_of(rest, size as nat) =~= seq![piece@] + whole_chunks_of(
                tail,
                size as nat,
            ));
            assert(chunk_views(out@.push(piece)) =~= chunk_views(out@).push(piece@));
            assert(chunk_views(out@).push(piece@) + whole_chunks_of(tail, size as nat)
                =~= chunk_views(out@) + (seq![piece@] + whole_chunks_of(tail, size as nat)));
        }
        out.push(piece);
        i = end;
    }
    proof {
        assert(whole_chunks_of(data@.skip(i as int), size as nat) =~= Seq::<Seq<u8>>::empty());
        assert(chunk_views(out@) + Seq::<Seq<u8>>::empty() =~= chunk_views(out@));
    }
    out
}

/// `Path <path> does not exist`.
pub open spec fn missing_path_message(path: Seq<char>) -> Seq<char> {
    seq!['P', 'a', 't', 'h', ' '] + path + seq![
        ' ',
        'd',
        'o',
        'e',
        's',
        ' ',
        'n',
        'o',
        't',
        ' ',
        'e',
        'x',
        'i',
        's',
        't',
    ]
}

/// The store entry that records that this node, at `node_addr`, holds the
/// object `object_key` at `path`: its key and its value stamped with the
/// current time. Refused with a message where the path does not exist.
pub fn reference_entry(object_key: &str, path: &str, path_exists: bool, node_addr: &str) -> (r:
    Result<(String, String), String>)
    ensures
        r is Ok <==> path_exists,
        r matches Ok(e) ==> e.0@ == obj_ref_key(object_key@) && exists|t: u64|
            e.1@ == obj_ref_value(path@, t as nat, node_addr@),
        r matches Err(m) ==> m@ == missing_path_message(path@),
{
    let key = serialize_obj_ref_key(object_key);
    if !path_exists {
        proof {
            reveal_strlit("Path ");
            reveal_strlit(" does not exist");
        }
        let mut m = String::from_str("Path ");
        m.append(path);
        m.append(" does not exist");
        assert(m@ =~= missing_path_message(path@));
        return Err(m);
    }
    let value = serialize_obj_ref_value(path, 0, node_addr);
    Ok((key, value))
}

} // verus!
