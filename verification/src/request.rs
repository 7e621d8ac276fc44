//! What the interface asks for: a transfer, or a call of the service.
use crate::text;
use vstd::prelude::*;
use vstd::string::*;

verus! {

/// The least that a call of the service needs to know.
#[derive(Debug, Clone)]
pub struct Auth {
    pub access_key_id: String,
    pub access_key_secret: String,
    pub endpoint: String,
    pub ossutil_path: String,
}

/// A transfer that the user asks for.
#[derive(Debug, Clone)]
pub struct UploadRequest {
    pub local_path: String,
    pub bucket: String,
    pub prefix: String,
    pub access_key_id: String,
    pub access_key_secret: String,
    pub endpoint: String,
    pub jobs: u32,
    pub parallel: u32,
    pub part_size_mb: u64,
    pub ossutil_path: String,
    pub cli_creds: bool,
}

/// What an [`UploadRequest`] says.
#[verifier::ext_equal]
pub struct RequestView {
    pub local_path: Seq<char>,
    pub bucket: Seq<char>,
    pub prefix: Seq<char>,
    pub access_key_id: Seq<char>,
    pub access_key_secret: Seq<char>,
    pub endpoint: Seq<char>,
    pub jobs: u32,
    pub parallel: u32,
    pub part_size_mb: u64,
    pub ossutil_path: Seq<char>,
    pub cli_creds: bool,
}

impl View for UploadRequest {
    type V = RequestView;

    open spec fn view(&self) -> RequestView {
        RequestView {
            local_path: self.local_path@,
            bucket: self.bucket@,
            prefix: self.prefix@,
            access_key_id: self.access_key_id@,
            access_key_secret: self.access_key_secret@,
            endpoint: self.endpoint@,
            jobs: self.jobs,
            parallel: self.parallel,
            part_size_mb: self.part_size_mb,
            ossutil_path: self.ossutil_path@,
            cli_creds: self.cli_creds,
        }
    }
}

/// The directory that a prefix names in a bucket: the prefix without white space around it, and
/// then without slashes around it.
pub open spec fn directory(prefix: Seq<char>) -> Seq<char> {
    text::stripped(text::trimmed(prefix), text::Margin::Slash)
}

/// The address of a prefix in a bucket. It ends with a slash.
pub open spec fn address(bucket: Seq<char>, prefix: Seq<char>) -> Seq<char> {
    if directory(prefix).len() == 0 {
        "oss://"@ + text::trimmed(bucket) + "/"@
    } else {
        "oss://"@ + text::trimmed(bucket) + "/"@ + directory(prefix) + "/"@
    }
}

impl UploadRequest {
    /// The address that the request uploads to.
    pub fn target(&self) -> (res: String)
        ensures
            res@ == address(self.bucket@, self.prefix@),
    {
        let prefix = text::trim_slashes(text::trim(self.prefix.as_str()));
        let mut res = String::new();
        res.append("oss://");
        res.append(text::trim(self.bucket.as_str()));
        res.append("/");
        if !prefix.is_empty() {
            res.append(prefix);
            res.append("/");
        }
        assert(res@ =~= address(self.bucket@, self.prefix@));
        res
    }
}

/// What an upload copies to where.
pub struct UploadPlan {
    /// The address to copy to.
    pub target: String,
    /// Whether a whole directory is copied.
    pub recursive: bool,
}

/// The address that an upload copies to: a directory keeps its name, so that its files do not lie
/// about among others.
pub open spec fn upload_address(
    base: Seq<char>,
    recursive: bool,
    name: Option<Seq<char>>,
) -> Seq<char> {
    match name {
        Some(name) if recursive => base + name + "/"@,
        _ => base,
    }
}

/// Plans an upload, from what the disk says of the local path: whether there is something, whether
/// it is a directory, and the last component of the path, where it has one that is text.
pub fn start_upload(
    req: &UploadRequest,
    exists: bool,
    is_dir: bool,
    name: Option<&str>,
) -> (plan: Result<UploadPlan, String>)
    ensures
        plan is Ok <==> exists,
        plan matches Ok(p) ==> p.recursive == is_dir && p.target@ == upload_address(
            address(req.bucket@, req.prefix@),
            is_dir,
            match name {
                Some(n) => Some(n@),
                None => None,
            },
        ),
        plan matches Err(e) ==> e@ == "本地路径不存在: "@ + req.local_path@,
{
    if !exists {
        let mut error = String::new();
        error.append("本地路径不存在: ");
        error.append(req.local_path.as_str());
        assert(error@ =~= "本地路径不存在: "@ + req.local_path@);
        return Err(error);
    }
    let mut target = req.target();
    match name {
        Some(name) if is_dir => {
            target.append(name);
            target.append("/");
        },
        _ => {},
    }
    Ok(UploadPlan { target, recursive: is_dir })
}

/// An address starts with the scheme and ends with a slash.
pub proof fn lemma_address_shape(bucket: Seq<char>, prefix: Seq<char>)
    ensures
        "oss://"@.is_prefix_of(address(bucket, prefix)),
        address(bucket, prefix).last() == '/',
{
    reveal_strlit("oss://");
    reveal_strlit("/");
    let a = address(bucket, prefix);
    assert(a.subrange(0, 6) =~= "oss://"@);
}

/// The directory in an address neither starts nor ends with a slash: no two slashes meet round it.
pub proof fn lemma_directory_has_no_outer_slash(prefix: Seq<char>)
    ensures
        directory(prefix).len() > 0 ==> directory(prefix)[0] != '/' && directory(prefix).last()
            != '/',
{
    text::lemma_stripped_ends(text::trimmed(prefix), text::Margin::Slash);
}

/// Slashes round a prefix do not matter.
pub proof fn lemma_outer_slashes_do_not_matter(bucket: Seq<char>, prefix: Seq<char>)
    requires
        text::trimmed(prefix) == prefix,
    ensures
        address(bucket, seq!['/'] + prefix) == address(bucket, prefix),
        address(bucket, prefix.push('/')) == address(bucket, prefix),
{
    text::lemma_stripped_ends(prefix, text::Margin::White);
    let before = seq!['/'] + prefix;
    let after = prefix.push('/');
    if prefix.len() > 0 {
        assert(before.last() == prefix.last());
        assert(after[0] == prefix[0]);
    }
    text::lemma_stripped_alone(before, text::Margin::White);
    text::lemma_stripped_alone(after, text::Margin::White);
    assert(before.drop_first() =~= prefix);
    text::lemma_strip_start_push(prefix, text::Margin::Slash, '/');
    let core = text::strip_start(prefix, text::Margin::Slash);
    if core.len() > 0 {
        assert(core.push('/').drop_last() =~= core);
    }
}

/// An address is the scheme, the bucket, and the prefix, each without what stands round it: white
/// space round the bucket, and white space and then slashes round the prefix.
pub proof fn lemma_address_is_made_of_its_parts(
    bucket: Seq<char>,
    directory: Seq<char>,
    white: (Seq<char>, Seq<char>, Seq<char>, Seq<char>),
    slashes: (Seq<char>, Seq<char>),
)
    requires
        forall|i: int| 0 <= i < white.0.len() ==> text::is_white(#[trigger] white.0[i]),
        forall|i: int| 0 <= i < white.1.len() ==> text::is_white(#[trigger] white.1[i]),
        forall|i: int| 0 <= i < white.2.len() ==> text::is_white(#[trigger] white.2[i]),
        forall|i: int| 0 <= i < white.3.len() ==> text::is_white(#[trigger] white.3[i]),
        forall|i: int| 0 <= i < slashes.0.len() ==> #[trigger] slashes.0[i] == '/',
        forall|i: int| 0 <= i < slashes.1.len() ==> #[trigger] slashes.1[i] == '/',
        bucket.len() > 0 ==> !text::is_white(bucket[0]) && !text::is_white(bucket.last()),
        directory.len() > 0 ==> directory[0] != '/' && directory.last() != '/',
        ({
            let inner = slashes.0 + directory + slashes.1;
            inner.len() > 0 ==> !text::is_white(inner[0]) && !text::is_white(inner.last())
        }),
    ensures
        ({
            let whole = address(
                white.0 + bucket + white.1,
                white.2 + (slashes.0 + directory + slashes.1) + white.3,
            );
            &&& directory.len() == 0 ==> whole == "oss://"@ + bucket + "/"@
            &&& directory.len() > 0 ==> whole == "oss://"@ + bucket + "/"@ + directory + "/"@
        }),
{
    text::lemma_trimmed_is_core(white.0, bucket, white.1);
    text::lemma_trimmed_is_core(white.2, slashes.0 + directory + slashes.1, white.3);
    text::lemma_slashes_are_stripped(slashes.0, directory, slashes.1);
}

/// A directory is uploaded to its own name below the address, and anything else to the address itself.
pub proof fn lemma_directory_keeps_its_name(base: Seq<char>, name: Seq<char>)
    ensures
        upload_address(base, true, Some(name)) == base + name + "/"@,
        upload_address(base, true, None) == base,
        upload_address(base, false, Some(name)) == base,
        upload_address(base, false, None) == base,
{
}

/// A request says what it holds, field by field.
pub proof fn lemma_request_says_what_it_holds(req: UploadRequest)
    ensures
        req@.local_path == req.local_path@,
        req@.bucket == req.bucket@,
        req@.prefix == req.prefix@,
        req@.access_key_id == req.access_key_id@,
        req@.access_key_secret == req.access_key_secret@,
        req@.endpoint == req.endpoint@,
        req@.jobs == req.jobs,
        req@.parallel == req.parallel,
        req@.part_size_mb == req.part_size_mb,
        req@.ossutil_path == req.ossutil_path@,
        req@.cli_creds == req.cli_creds,
{
}

} // verus!
