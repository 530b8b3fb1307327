//! The Image Store: a configured read-write directory of guest disk images, referenced by
//! name. New blank images are made in it with `qemu-img create`.

use vstd::prelude::*;

use crate::instance::store_path;
use crate::instance::store_path::{
    DirItem, StoreEntry, StoreError, StoreLabels, StoreSnapshot,
};
use crate::text;

verus! {

/// Disk image formats the server creates and pins into argv.
#[derive(Debug, Clone, Copy, PartialEq, Eq, Structural)]
pub enum ImageFormat {
    /// The default copy-on-write format.
    Qcow2,
    /// A raw block image.
    Raw,
}

impl ImageFormat {
    /// Canonical spelling.
    pub open spec fn name(self) -> Seq<char> {
        match self {
            ImageFormat::Qcow2 => "qcow2"@,
            ImageFormat::Raw => "raw"@,
        }
    }

    /// Canonical spelling emitted into the `-drive format=` property.
    pub fn as_str(self) -> (r: &'static str)
        ensures
            r@ == self.name(),
    {
        match self {
            ImageFormat::Qcow2 => "qcow2",
            ImageFormat::Raw => "raw",
        }
    }
}

impl Default for ImageFormat {
    fn default() -> (r: ImageFormat)
        ensures
            r == ImageFormat::Qcow2,
    {
        ImageFormat::Qcow2
    }
}

/// The wording of the Image Store.
pub open spec fn image_wording() -> store_path::LabelTexts {
    store_path::LabelTexts {
        store: "Image Store"@,
        entry: "Disk image"@,
        env_var: "QMP_MCP_IMAGE_DIR"@,
    }
}

/// The labels of the Image Store.
pub fn image_labels() -> (r: StoreLabels)
    ensures
        r@ == image_wording(),
{
    StoreLabels { store: "Image Store", entry: "Disk image", env_var: "QMP_MCP_IMAGE_DIR" }
}

/// Validate that a disk name is a single, safe path segment.
pub fn assert_valid_image_name(name: &str) -> (r: Result<(), StoreError>)
    ensures
        store_path::refused(r, store_path::name_problem(name@, image_wording())),
{
    store_path::assert_valid_store_name(name, &image_labels())
}

/// Resolve a disk name against the Image Store and return its safe path, or a refusal.
pub fn resolve_image_path(name: &str, store_dir: &str, snapshot: &StoreSnapshot) -> (r: Result<
    String,
    StoreError,
>)
    ensures
        store_path::path_agrees(
            r,
            store_path::resolution(name@, store_dir@, image_wording(), *snapshot),
        ),
{
    store_path::resolve_in_store(name, store_dir, &image_labels(), snapshot)
}

/// The store directory and the disk images present in it, by name.
#[derive(Debug, Clone, PartialEq, Eq)]
pub struct ImageListing {
    /// The Image Store directory, as configured.
    pub store: String,
    /// The disk images present in the Store, sorted by name.
    pub images: Vec<StoreEntry>,
}

/// A request to create a blank image inside the Store.
#[derive(Debug, Clone, PartialEq, Eq)]
pub struct CreateImageRequest {
    /// Bare name of the image to create.
    pub name: String,
    /// Virtual size in GiB. Signed, so that a zero or negative request is refused with its
    /// own message.
    pub size_gb: i64,
    /// Image format.
    pub format: ImageFormat,
}

/// The outcome of a successful creation.
#[derive(Debug, Clone, PartialEq, Eq)]
pub struct CreateImageResult {
    /// The bare name the image was created under.
    pub name: String,
    /// Host path of the created image (inside the Store).
    pub path: String,
    /// The format the image was created with.
    pub format: ImageFormat,
    /// The virtual size, in GiB, the image was created with.
    pub size_gb: i64,
}

/// Options for an [`ImageStore`].
#[derive(Debug, Clone)]
pub struct ImageStoreOptions {
    /// Path of the Image Store directory.
    pub dir: String,
    /// Hard cap on virtual disk size, in GiB.
    pub max_disk_gb: u32,
    /// The `qemu-img` binary to invoke (default `qemu-img`).
    pub qemu_img_binary: Option<String>,
}

/// The read-write Image Store.
#[derive(Debug, Clone)]
pub struct ImageStore {
    /// The configured Image Store directory.
    pub dir: String,
    /// Hard cap on virtual disk size, in GiB.
    pub max_disk_gb: u32,
    /// The `qemu-img` binary to invoke.
    pub binary: String,
}

/// An accepted creation: the `qemu-img` command that carries it out, and the image it makes.
#[derive(Debug, Clone, PartialEq, Eq)]
pub struct ImageCreation {
    /// The `qemu-img` binary.
    pub binary: String,
    /// Its arguments.
    pub args: Vec<String>,
    /// The image that exists once the command has succeeded.
    pub image: CreateImageResult,
}

/// Why a creation is refused, or the path of the image it makes.
pub open spec fn creation(
    store: ImageStore,
    request: CreateImageRequest,
    snapshot: StoreSnapshot,
) -> Result<Seq<char>, Seq<char>> {
    let size = text::decimal_int(request.size_gb as int);
    let max = text::decimal(store.max_disk_gb as nat);
    if request.size_gb < 1 {
        Err("Disk size must be a positive integer number of GiB (got "@ + size + ")."@)
    } else if request.size_gb > store.max_disk_gb {
        Err(
            "Requested disk size "@ + size + " GiB exceeds the maximum allowed "@ + max
                + " GiB (QMP_MCP_MAX_DISK_GB). Request "@ + max + " GiB or less."@,
        )
    } else {
        match store_path::resolution(request.name@, store.dir@, image_wording(), snapshot) {
            Err(m) => Err(m),
            Ok(path) => if snapshot.at(request.name@) is Some {
                Err(
                    "An image named \""@ + request.name@
                        + "\" already exists in the Image Store. Choose another name or remove it first."@,
                )
            } else {
                Ok(path)
            },
        }
    }
}

/// The arguments of the `qemu-img` command that makes an image.
pub open spec fn creation_args(request: CreateImageRequest, path: Seq<char>) -> Seq<Seq<char>> {
    seq![
        "create"@,
        "-f"@,
        request.format.name(),
        path,
        text::decimal_int(request.size_gb as int) + "G"@,
    ]
}

impl ImageStore {
    /// Construct an Image Store, defaulting the `qemu-img` binary to `qemu-img`.
    pub fn new(options: ImageStoreOptions) -> (r: ImageStore)
        ensures
            r.dir@ == options.dir@,
            r.max_disk_gb == options.max_disk_gb,
            r.binary@ == (match options.qemu_img_binary {
                Some(b) => b@,
                None => "qemu-img"@,
            }),
    {
        let binary = match options.qemu_img_binary {
            Some(b) => b,
            None => "qemu-img".to_string(),
        };
        ImageStore { dir: options.dir, max_disk_gb: options.max_disk_gb, binary }
    }

    /// List the disk images in the Store from what was found when its directory was read.
    pub fn list(&self, found: Option<Vec<DirItem>>) -> (r: Result<ImageListing, StoreError>)
        ensures
            match (found, r) {
                (None, Err(e)) => e.0@ == store_path::missing_store(self.dir@, image_wording()),
                (Some(items), Ok(l)) => l.store@ == self.dir@ && store_path::entry_texts(l.images@)
                    == store_path::listing(items@),
                _ => false,
            },
    {
        match store_path::list_store_files(self.dir.as_str(), &image_labels(), found) {
            Ok(images) => Ok(ImageListing { store: self.dir.clone(), images }),
            Err(e) => Err(e),
        }
    }

    /// Decide on the creation of a blank image. Refuses non-positive and over-cap sizes,
    /// names that the store boundary refuses, and a name that is already taken; otherwise
    /// gives the command that makes the image.
    pub fn create(&self, request: &CreateImageRequest, snapshot: &StoreSnapshot) -> (r: Result<
        ImageCreation,
        StoreError,
    >)
        ensures
            match (r, creation(*self, *request, *snapshot)) {
                (Ok(c), Ok(path)) => {
                    &&& c.binary@ == self.binary@
                    &&& text::texts(c.args@) == creation_args(*request, path)
                    &&& c.image.name@ == request.name@
                    &&& c.image.path@ == path
                    &&& c.image.format == request.format
                    &&& c.image.size_gb == request.size_gb
                },
                (Err(e), Err(m)) => e.0@ == m,
                _ => false,
            },
    {
        let size = text::decimal_i64(request.size_gb);
        if request.size_gb < 1 {
            return Err(
                StoreError(
                    text::cat3(
                        "Disk size must be a positive integer number of GiB (got ",
                        size.as_str(),
                        ").",
                    ),
                ),
            );
        }
        if request.size_gb > self.max_disk_gb as i64 {
            let max = text::decimal_u64(self.max_disk_gb as u64);
            let mut m = text::cat5(
                "Requested disk size ",
                size.as_str(),
                " GiB exceeds the maximum allowed ",
                max.as_str(),
                " GiB (QMP_MCP_MAX_DISK_GB). Request ",
            );
            m.append(max.as_str());
            m.append(" GiB or less.");
            return Err(StoreError(m));
        }
        let path = match resolve_image_path(request.name.as_str(), self.dir.as_str(), snapshot) {
            Ok(p) => p,
            Err(e) => return Err(e),
        };
        if snapshot.leaf(request.name.as_str()).is_some() {
            return Err(
                StoreError(
                    text::cat3(
                        "An image named \"",
                        request.name.as_str(),
                        "\" already exists in the Image Store. Choose another name or remove it first.",
                    ),
                ),
            );
        }
        let mut args: Vec<String> = Vec::new();
        args.push("create".to_string());
        args.push("-f".to_string());
        args.push(request.format.as_str().to_string());
        args.push(path.clone());
        args.push(text::cat2(size.as_str(), "G"));
        assert(text::texts(args@) =~= creation_args(*request, path@));
        Ok(
            ImageCreation {
                binary: self.binary.clone(),
                args,
                image: CreateImageResult {
                    name: request.name.clone(),
                    path,
                    format: request.format,
                    size_gb: request.size_gb,
                },
            },
        )
    }
}

impl ImageCreation {
    /// The result of the creation, given how the command ended.
    pub fn finish(self, outcome: Result<(), String>) -> (r: Result<CreateImageResult, StoreError>)
        ensures
            match (outcome, r) {
                (Ok(_), Ok(image)) => image == self.image,
                (Err(m), Err(e)) => e.0@ == "Failed to create image \""@ + self.image.name@
                    + "\": "@ + m@,
                _ => false,
            },
    {
        match outcome {
            Ok(()) => Ok(self.image),
            Err(m) => Err(
                StoreError(
                    text::cat4(
                        "Failed to create image \"",
                        self.image.name.as_str(),
                        "\": ",
                        m.as_str(),
                    ),
                ),
            ),
        }
    }
}

/// A number, or `null` where there is none.
pub open spec fn number_or_null(n: Option<i32>) -> Seq<char> {
    match n {
        Some(k) => text::decimal_int(k as int),
        None => "null"@,
    }
}

fn number_text(n: Option<i32>) -> (r: String)
    ensures
        r@ == number_or_null(n),
{
    match n {
        Some(k) => text::decimal_i64(k as i64),
        None => "null".to_string(),
    }
}

/// The message for a `qemu-img` that failed.
pub open spec fn qemu_img_failure(
    binary: Seq<char>,
    args: Seq<Seq<char>>,
    code: Option<i32>,
    signal: Option<i32>,
    stderr: Seq<char>,
) -> Seq<char> {
    let tail = if text::is_blank(stderr) {
        "(no stderr)"@
    } else {
        text::trimmed(stderr)
    };
    binary + " "@ + text::joined(args, " "@) + " failed (code="@ + number_or_null(code)
        + ", signal="@ + number_or_null(signal) + "): "@ + tail
}

/// The outcome of a finished `qemu-img` process: success on exit status zero, otherwise a
/// message with the command, its exit code and signal, and its trimmed standard error.
pub fn qemu_img_outcome(
    binary: &str,
    args: &Vec<String>,
    success: bool,
    code: Option<i32>,
    signal: Option<i32>,
    stderr: &str,
) -> (r: Result<(), String>)
    ensures
        match r {
            Ok(_) => success,
            Err(m) => !success && m@ == qemu_img_failure(
                binary@,
                text::texts(args@),
                code,
                signal,
                stderr@,
            ),
        },
{
    if success {
        return Ok(());
    }
    let command = text::join_strings(args, " ");
    let code_text = number_text(code);
    let signal_text = number_text(signal);
    let trimmed = text::trim(stderr);
    let mut m = text::cat5(binary, " ", command.as_str(), " failed (code=", code_text.as_str());
    m.append(", signal=");
    m.append(signal_text.as_str());
    m.append("): ");
    if trimmed.as_str().is_empty() {
        m.append("(no stderr)");
    } else {
        m.append(trimmed.as_str());
    }
    Err(m)
}

// ---------------------------------------------------------------------------
// Laws
// ---------------------------------------------------------------------------

/// An image is created exactly where its size is from one GiB to the cap, its name resolves in
/// the Image Store, and nothing lies at the name yet. It is created at the path to which the
/// name resolves.
pub proof fn images_are_created_where_they_may_be(
    store: ImageStore,
    request: CreateImageRequest,
    snapshot: StoreSnapshot,
)
    ensures
        ({
            let path = store_path::resolution(
                request.name@,
                store.dir@,
                image_wording(),
                snapshot,
            );
            &&& creation(store, request, snapshot) is Ok <==> 1 <= request.size_gb
                <= store.max_disk_gb && path is Ok && snapshot.at(request.name@) is None
            &&& creation(store, request, snapshot) is Ok ==> creation(store, request, snapshot)
                == path
        }),
{
}

/// The command that makes an image names the format, the path and the size in GiB that were
/// asked for.
pub proof fn image_commands_say_what_was_asked(request: CreateImageRequest, path: Seq<char>)
    ensures
        creation_args(request, path).len() == 5,
        creation_args(request, path)[0] == "create"@,
        creation_args(request, path)[1] == "-f"@,
        creation_args(request, path)[2] == (match request.format {
            ImageFormat::Qcow2 => "qcow2"@,
            ImageFormat::Raw => "raw"@,
        }),
        creation_args(request, path)[3] == path,
        request.size_gb > 0 ==> creation_args(request, path)[4].last() == 'G'
            && text::digits_value(creation_args(request, path)[4].drop_last()) == request.size_gb,
{
    reveal_strlit("G");
    if request.size_gb > 0 {
        text::decimal_reads_back(request.size_gb as nat);
        assert(creation_args(request, path)[4].drop_last() =~= text::decimal(
            request.size_gb as nat,
        ));
    }
}

/// The report of a command that failed names the binary, its arguments, how it ended and what it
/// said.
pub proof fn image_failures_are_explained(
    binary: Seq<char>,
    args: Seq<Seq<char>>,
    code: Option<i32>,
    signal: Option<i32>,
    stderr: Seq<char>,
)
    ensures
        ({
            let m = qemu_img_failure(binary, args, code, signal, stderr);
            &&& text::has_prefix(m, binary + " "@ + text::joined(args, " "@))
            &&& code matches Some(c) ==> text::has_infix(
                m,
                "code="@ + text::decimal_int(c as int),
            )
            &&& signal matches Some(n) ==> text::has_infix(
                m,
                "signal="@ + text::decimal_int(n as int),
            )
            &&& code is None ==> text::has_infix(m, "code="@ + "null"@)
            &&& signal is None ==> text::has_infix(m, "signal="@ + "null"@)
            &&& !text::is_blank(stderr) ==> text::has_infix(m, text::trimmed(stderr))
        }),
{
    let m = qemu_img_failure(binary, args, code, signal, stderr);
    let tail = if text::is_blank(stderr) {
        "(no stderr)"@
    } else {
        text::trimmed(stderr)
    };
    reveal_strlit(" failed (code=");
    reveal_strlit(" failed (");
    reveal_strlit("code=");
    reveal_strlit(", signal=");
    reveal_strlit("signal=");
    reveal_strlit(", ");
    assert(" failed (code="@ =~= " failed ("@ + "code="@);
    assert(", signal="@ =~= ", "@ + "signal="@);
    lemma_failure_parts(
        binary + " "@ + text::joined(args, " "@),
        (" failed ("@, "code="@, number_or_null(code)),
        (", "@, "signal="@, number_or_null(signal)),
        "): "@,
        tail,
        m,
    );
}

proof fn lemma_failure_parts(
    lead: Seq<char>,
    first: (Seq<char>, Seq<char>, Seq<char>),
    second: (Seq<char>, Seq<char>, Seq<char>),
    colon: Seq<char>,
    tail: Seq<char>,
    m: Seq<char>,
)
    requires
        m == lead + (first.0 + first.1) + first.2 + (second.0 + second.1) + second.2 + colon + tail,
    ensures
        text::has_prefix(m, lead),
        text::has_infix(m, first.1 + first.2),
        text::has_infix(m, second.1 + second.2),
        text::has_infix(m, tail),
{
    let rest = first.0 + first.1 + first.2 + second.0 + second.1 + second.2 + colon + tail;
    assert(m =~= lead + rest);
    text::parts_are_found(Seq::empty(), lead, rest, m);
    let behind = second.0 + second.1 + second.2 + colon + tail;
    assert(m =~= lead + first.0 + (first.1 + first.2) + behind);
    text::parts_are_found(lead + first.0, first.1 + first.2, behind, m);
    let front = lead + first.0 + first.1 + first.2 + second.0;
    assert(m =~= front + (second.1 + second.2) + (colon + tail));
    text::parts_are_found(front, second.1 + second.2, colon + tail, m);
    let all = lead + first.0 + first.1 + first.2 + second.0 + second.1 + second.2 + colon;
    assert(m =~= all + tail + Seq::<char>::empty());
    text::parts_are_found(all, tail, Seq::empty(), m);
}

/// The messages of the Image Store speak of disk images and of the variable that sets it.
pub proof fn image_wording_is_of_images()
    ensures
        image_wording().store == "Image Store"@,
        image_wording().entry == "Disk image"@,
        image_wording().env_var == "QMP_MCP_IMAGE_DIR"@,
        ImageFormat::Qcow2.name() == "qcow2"@,
        ImageFormat::Raw.name() == "raw"@,
{
}

/// An image that may not be created is refused for its size, or else for its name, or else because
/// it is there already. A refusal for the size gives the number, and the cap where it is over it.
pub proof fn images_are_refused_for_what_is_wrong(
    store: ImageStore,
    request: CreateImageRequest,
    snapshot: StoreSnapshot,
)
    ensures
        ({
            let r = creation(store, request, snapshot);
            let size = text::decimal_int(request.size_gb as int);
            let max = text::decimal(store.max_disk_gb as nat);
            let place = store_path::resolution(
                request.name@,
                store.dir@,
                image_wording(),
                snapshot,
            );
            let fits = 1 <= request.size_gb <= store.max_disk_gb;
            &&& request.size_gb < 1 ==> r == Err::<Seq<char>, Seq<char>>(
                "Disk size must be a positive integer number of GiB (got "@ + size + ")."@,
            )
            &&& request.size_gb >= 1 && request.size_gb > store.max_disk_gb ==> r == Err::<
                Seq<char>,
                Seq<char>,
            >(
                "Requested disk size "@ + size + " GiB exceeds the maximum allowed "@ + max
                    + " GiB (QMP_MCP_MAX_DISK_GB). Request "@ + max + " GiB or less."@,
            )
            &&& fits && place is Err ==> r == place
            &&& fits && place is Ok && snapshot.at(request.name@) is Some ==> r == Err::<
                Seq<char>,
                Seq<char>,
            >(
                "An image named \""@ + request.name@
                    + "\" already exists in the Image Store. Choose another name or remove it first."@,
            )
        }),
{
}

/// A command that failed without a word is reported as such, and one with output with all of it but
/// the white space around it.
pub proof fn silent_failures_say_so(
    binary: Seq<char>,
    args: Seq<Seq<char>>,
    code: Option<i32>,
    signal: Option<i32>,
    stderr: Seq<char>,
)
    ensures
        ({
            let number = |n: Option<i32>|
                if n is Some {
                    text::decimal_int(n->0 as int)
                } else {
                    "null"@
                };
            qemu_img_failure(binary, args, code, signal, stderr) == binary + " "@ + text::joined(
                args,
                " "@,
            ) + " failed (code="@ + number(code) + ", signal="@ + number(signal) + "): "@ + (
            if text::is_blank(stderr) {
                "(no stderr)"@
            } else {
                text::trimmed(stderr)
            })
        }),
{
}

} // verus!
