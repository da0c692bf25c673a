use vstd::prelude::*;

use crate::handles::{resized_on_path, Cursor, HandleTable};
use crate::tokens::{lemma_token_injective, make_token, token_of};

verus! {

/// Status codes of the file-transfer protocol.
#[derive(Clone, Copy, Debug, PartialEq, Eq, Structural)]
pub enum StatusCode {
    Success,
    Eof,
    NoSuchFile,
    PermissionDenied,
    Failure,
    BadMessage,
    NoConnection,
    ConnectionLost,
    OpUnsupported,
}

/// A status reply to request `id`.
pub struct Status {
    pub id: u32,
    pub status_code: StatusCode,
    pub error_message: String,
    pub language_tag: String,
}

/// A handle reply to request `id`.
pub struct Handle {
    pub id: u32,
    pub handle: String,
}

/// A data reply to request `id`.
pub struct Data {
    pub id: u32,
    pub data: Vec<u8>,
}

/// Attributes of a file, each one optional.
pub struct FileAttributes {
    pub size: Option<u64>,
    pub uid: Option<u32>,
    pub user: Option<String>,
    pub gid: Option<u32>,
    pub group: Option<String>,
    pub permissions: Option<u32>,
    pub atime: Option<u32>,
    pub mtime: Option<u32>,
}

/// One entry of a name reply.
pub struct File {
    pub filename: String,
    pub longname: String,
    pub attrs: FileAttributes,
}

/// A name reply to request `id`.
pub struct Name {
    pub id: u32,
    pub files: Vec<File>,
}

/// An attributes reply to request `id`.
pub struct Attrs {
    pub id: u32,
    pub attrs: FileAttributes,
}

/// The version reply that answers the handshake.
pub struct Version {
    pub version: u32,
}

impl FileAttributes {
    /// No attribute is set.
    pub open spec fn is_empty(&self) -> bool {
        &&& self.size is None
        &&& self.uid is None
        &&& self.user is None
        &&& self.gid is None
        &&& self.group is None
        &&& self.permissions is None
        &&& self.atime is None
        &&& self.mtime is None
    }
}

impl Default for FileAttributes {
    fn default() -> (r: FileAttributes)
        ensures
            r.is_empty(),
    {
        FileAttributes {
            size: None,
            uid: None,
            user: None,
            gid: None,
            group: None,
            permissions: None,
            atime: None,
            mtime: None,
        }
    }
}

/// Relies on russh_sftp::protocol::VERSION: the protocol version that the
/// protocol engine speaks, which is 3.
#[verifier::external_body]
fn engine_version() -> (r: u32)
    ensures
        r == 3,
{
    russh_sftp::protocol::VERSION
}

/// Why a read request yields no data without touching the filesystem:
/// `None` when the handle is an open file with bytes left to deliver.
pub open spec fn read_blocker(t: Map<Seq<char>, Cursor>, h: Seq<char>) -> Option<StatusCode> {
    if !t.contains_key(h) {
        Some(StatusCode::NoSuchFile)
    } else {
        match t[h] {
            Cursor::File { size, delivered } => if delivered >= size {
                Some(StatusCode::Eof)
            } else {
                None
            },
            Cursor::Directory { .. } => Some(StatusCode::NoSuchFile),
        }
    }
}

/// The bytes of its recorded size that a file handle has not delivered yet.
pub open spec fn remaining(c: Cursor) -> nat {
    match c {
        Cursor::File { size, delivered } => if delivered < size {
            (size - delivered) as nat
        } else {
            0
        },
        Cursor::Directory { .. } => 0,
    }
}

/// How many of the `available` bytes that were read a reply carries: at
/// most the `len` bytes asked for, and at most the `left` bytes of the
/// recorded size not delivered yet.
pub open spec fn chunk_len(available: nat, len: u32, left: nat) -> nat {
    let asked = if available < len {
        available
    } else {
        len as nat
    };
    if asked < left {
        asked
    } else {
        left
    }
}

/// The cursor of an open file after `n` more bytes have been delivered.
pub open spec fn advanced(c: Cursor, n: nat) -> Cursor {
    match c {
        Cursor::File { size, delivered } => Cursor::File {
            size,
            delivered: (delivered + n) as u64,
        },
        Cursor::Directory { exhausted } => Cursor::Directory { exhausted },
    }
}

/// Why a directory-read request yields no listing without touching the
/// filesystem: `None` when the handle is an open, not yet listed directory.
pub open spec fn readdir_blocker(t: Map<Seq<char>, Cursor>, h: Seq<char>) -> Option<
    StatusCode,
> {
    if !t.contains_key(h) {
        Some(StatusCode::NoSuchFile)
    } else {
        match t[h] {
            Cursor::Directory { exhausted } => if exhausted {
                Some(StatusCode::Eof)
            } else {
                None
            },
            Cursor::File { .. } => Some(StatusCode::NoSuchFile),
        }
    }
}

/// The handles after a stat of open handle `h` that found a file of `size`
/// bytes: a file handle takes the new size.
pub open spec fn resized(t: Map<Seq<char>, Cursor>, h: Seq<char>, size: u64) -> Map<
    Seq<char>,
    Cursor,
> {
    if t.contains_key(h) {
        match t[h] {
            Cursor::File { delivered, .. } => t.insert(h, Cursor::File { size, delivered }),
            Cursor::Directory { .. } => t,
        }
    } else {
        t
    }
}

/// A status reply carries `code` and `message` in English.
pub open spec fn is_status(s: Status, id: u32, code: StatusCode, message: Seq<char>) -> bool {
    &&& s.id == id
    &&& s.status_code == code
    &&& s.error_message@ == message
    &&& s.language_tag@ == "en-US"@
}

/// The reply to a write, remove, rmdir or mkdir request, from what the
/// filesystem reported: success, or failure with the error's description.
pub open spec fn completion_reply(s: Status, id: u32, outcome: Result<(), String>) -> bool {
    match outcome {
        Ok(()) => is_status(s, id, StatusCode::Success, "Ok"@),
        Err(e) => is_status(s, id, StatusCode::Failure, e@),
    }
}

/// The reply to a stat-like request, from the attributes that were found.
pub open spec fn attrs_reply(
    r: Result<Attrs, StatusCode>,
    id: u32,
    found: Option<FileAttributes>,
) -> bool {
    match found {
        Some(a) => r == Ok::<Attrs, StatusCode>(Attrs { id, attrs: a }),
        None => r == Err::<Attrs, StatusCode>(StatusCode::NoSuchFile),
    }
}

/// A directory is listed once: when a directory read on `h` delivers the
/// listing, the handle is marked exhausted, and every later directory read
/// on it is answered with end of data (which leaves the handles as they are)
/// until the directory is opened again.
pub proof fn lemma_listing_once(t: Map<Seq<char>, Cursor>, h: Seq<char>)
    requires
        readdir_blocker(t, h) == None::<StatusCode>,
    ensures
        readdir_blocker(t.insert(h, Cursor::Directory { exhausted: true }), h) == Some(
            StatusCode::Eof,
        ),
{
}

/// One read never takes a file handle past its recorded size: whatever
/// the filesystem yields, the reply carries at most the `size - delivered`
/// bytes not delivered yet, the cursor moves forward by exactly what the
/// reply carries and stays within `size`; once it reaches `size`, every
/// further read gets end of data.
pub proof fn lemma_read_cursor(size: u64, delivered: u64, available: nat, len: u32)
    requires
        delivered <= size,
    ensures
        chunk_len(available, len, remaining(Cursor::File { size, delivered })) <= size - delivered,
        advanced(
            Cursor::File { size, delivered },
            chunk_len(available, len, remaining(Cursor::File { size, delivered })),
        ) == (Cursor::File {
            size,
            delivered: (delivered + chunk_len(
                available,
                len,
                remaining(Cursor::File { size, delivered }),
            )) as u64,
        }),
        forall|t: Map<Seq<char>, Cursor>, h: Seq<char>|
            #[trigger] read_blocker(t.insert(h, Cursor::File { size, delivered: size }), h) == Some(
                StatusCode::Eof,
            ),
{
}

/// The handles after a read on `h` whose file yielded `available` bytes
/// and that asked for at most `len`: the cursor moves on when the read was
/// served, and nothing changes when it was answered without reading.
pub open spec fn read_step(t: Map<Seq<char>, Cursor>, h: Seq<char>, available: nat, len: u32) -> Map<
    Seq<char>,
    Cursor,
> {
    if read_blocker(t, h) == None::<StatusCode> {
        t.insert(h, advanced(t[h], chunk_len(available, len, remaining(t[h]))))
    } else {
        t
    }
}

/// The handles after successive reads on `h`, the `i`-th of which found
/// `available[i]` bytes in the file.
pub open spec fn after_reads(
    t: Map<Seq<char>, Cursor>,
    h: Seq<char>,
    available: Seq<nat>,
    len: u32,
) -> Map<Seq<char>, Cursor>
    decreases available.len(),
{
    if available.len() == 0 {
        t
    } else {
        after_reads(read_step(t, h, available[0], len), h, available.drop_first(), len)
    }
}

/// File read cursors only move forward and never pass the file's size: over
/// any run of successive reads of an open file of `size` bytes, at any
/// offsets and whatever the filesystem yields, the bytes delivered in all
/// never exceed `size`, and once `size` bytes have been delivered every
/// further read gets end of data.
pub proof fn lemma_reads_never_exceed_size(
    t: Map<Seq<char>, Cursor>,
    h: Seq<char>,
    available: Seq<nat>,
    len: u32,
)
    requires
        t.contains_key(h),
        t[h] is File,
        t[h]->delivered <= t[h]->size,
    ensures
        after_reads(t, h, available, len).contains_key(h),
        after_reads(t, h, available, len)[h] is File,
        after_reads(t, h, available, len)[h]->size == t[h]->size,
        t[h]->delivered <= after_reads(t, h, available, len)[h]->delivered <= t[h]->size,
        after_reads(t, h, available, len)[h]->delivered == t[h]->size ==> read_blocker(
            after_reads(t, h, available, len),
            h,
        ) == Some(StatusCode::Eof),
    decreases available.len(),
{
    if available.len() > 0 {
        let next = read_step(t, h, available[0], len);
        if read_blocker(t, h) == None::<StatusCode> {
            lemma_read_cursor(t[h]->size, t[h]->delivered, available[0], len);
        }
        lemma_reads_never_exceed_size(next, h, available.drop_first(), len);
    }
}

/// Handles are independent, also when they were opened on the same path:
/// a directory read or a file read on `h` changes the cursor of `h` alone,
/// and every other open handle keeps its cursor.
pub proof fn lemma_handles_independent(
    t: Map<Seq<char>, Cursor>,
    h: Seq<char>,
    other: Seq<char>,
    available: nat,
    len: u32,
)
    requires
        h != other,
        t.contains_key(other),
    ensures
        t.insert(h, Cursor::Directory { exhausted: true })[other] == t[other],
        read_step(t, h, available, len).contains_key(other),
        read_step(t, h, available, len)[other] == t[other],
        readdir_blocker(t.insert(h, Cursor::Directory { exhausted: true }), other)
            == readdir_blocker(t, other),
        read_blocker(read_step(t, h, available, len), other) == read_blocker(t, other),
{
}

/// The handles after `h` is opened afresh on a file of `size` bytes.
pub open spec fn fresh(t: Map<Seq<char>, Cursor>, h: Seq<char>, size: u64) -> Map<Seq<char>, Cursor> {
    t.insert(h, Cursor::File { size, delivered: 0 })
}

/// Bytes written to a file come back unchanged: after a fresh open of a
/// file that holds exactly `b`, a read of at least `b.len()` bytes that the
/// filesystem answers with `b` delivers `b` whole, and the read after it
/// gets end of data; an empty `b` is end of data at once.
pub proof fn lemma_round_trip(t: Map<Seq<char>, Cursor>, h: Seq<char>, b: Seq<u8>, len: u32)
    requires
        b.len() <= u64::MAX,
        b.len() <= len,
    ensures
        b.len() == 0 ==> read_blocker(fresh(t, h, b.len() as u64), h) == Some(StatusCode::Eof),
        b.len() > 0 ==> read_blocker(fresh(t, h, b.len() as u64), h) == None::<StatusCode>,
        chunk_len(b.len(), len, remaining(fresh(t, h, b.len() as u64)[h])) == b.len(),
        b.take(chunk_len(b.len(), len, remaining(fresh(t, h, b.len() as u64)[h])) as int) == b,
        read_blocker(read_step(fresh(t, h, b.len() as u64), h, b.len(), len), h) == Some(
            StatusCode::Eof,
        ),
{
    assert(b.take(b.len() as int) =~= b);
}

fn status(id: u32, code: StatusCode, message: String) -> (s: Status)
    ensures
        is_status(s, id, code, message@),
{
    Status { id, status_code: code, error_message: message, language_tag: "en-US".to_string() }
}

fn completion(id: u32, outcome: Result<(), String>) -> (s: Status)
    ensures
        completion_reply(s, id, outcome),
{
    match outcome {
        Ok(()) => status(id, StatusCode::Success, "Ok".to_string()),
        Err(e) => status(id, StatusCode::Failure, e),
    }
}

fn attrs_of(id: u32, found: Option<FileAttributes>) -> (r: Result<Attrs, StatusCode>)
    ensures
        attrs_reply(r, id, found),
{
    match found {
        Some(a) => Ok(Attrs { id, attrs: a }),
        None => Err(StatusCode::NoSuchFile),
    }
}

/// The reply to a write on `h`: from what the filesystem reported when `h`
/// is an open file handle, "no such file" otherwise.
pub open spec fn write_reply(
    s: Status,
    id: u32,
    t: Map<Seq<char>, Cursor>,
    h: Seq<char>,
    outcome: Result<(), String>,
) -> bool {
    if t.contains_key(h) && t[h] is File {
        completion_reply(s, id, outcome)
    } else {
        is_status(s, id, StatusCode::NoSuchFile, "No such file"@)
    }
}

/// The file-transfer protocol handler of one upgraded channel.
///
/// Every operation that needs the filesystem takes what the filesystem
/// reported as an argument; the caller performs the call first, on the path
/// that `path_of` gives for a handle, and for reads only when `read_check` /
/// `readdir_check` answer `None`.
pub struct SFTPHandler {
    table: HandleTable,
    next_serial: u64,
}

impl SFTPHandler {
    /// The open handles of this session, by token.
    pub closed spec fn handles(&self) -> Map<Seq<char>, Cursor> {
        self.table.view()
    }

    /// The path each open handle was opened on, by token.
    pub closed spec fn paths(&self) -> Map<Seq<char>, Seq<char>> {
        self.table.paths()
    }

    /// The serial number of the next handle to be opened.
    pub closed spec fn serial(&self) -> u64 {
        self.next_serial
    }

    /// Every open token was made from a serial number handed out already.
    pub closed spec fn wf(&self) -> bool {
        &&& self.table.wf()
        &&& forall|k: Seq<char>|
            #[trigger] self.table.view().contains_key(k) ==> exists|n: u64|
                n < self.next_serial && token_of(n) == k
    }

    /// A handler with no open handle.
    pub fn new() -> (r: SFTPHandler)
        ensures
            r.wf(),
            r.handles() == Map::<Seq<char>, Cursor>::empty(),
            r.paths() == Map::<Seq<char>, Seq<char>>::empty(),
            r.serial() == 0,
    {
        SFTPHandler { table: HandleTable::new(), next_serial: 0 }
    }

    /// Opens a new handle on `path` with `cursor`, under a token that no
    /// open handle has; `None` once all serial numbers are used up.
    fn open_handle(&mut self, path: String, cursor: Cursor) -> (r: Option<String>)
        requires
            old(self).wf(),
        ensures
            final(self).wf(),
            old(self).serial() < u64::MAX ==> {
                &&& r is Some
                &&& r->Some_0@ == token_of(old(self).serial())
                &&& !old(self).handles().contains_key(r->Some_0@)
                &&& final(self).handles() == old(self).handles().insert(r->Some_0@, cursor)
                &&& final(self).paths() == old(self).paths().insert(r->Some_0@, path@)
                &&& final(self).serial() == old(self).serial() + 1
            },
            old(self).serial() == u64::MAX ==> {
                &&& r is None
                &&& final(self).handles() == old(self).handles()
                &&& final(self).paths() == old(self).paths()
                &&& final(self).serial() == old(self).serial()
            },
    {
        if self.next_serial == u64::MAX {
            return None;
        }
        let n = self.next_serial;
        let token = make_token(n);
        proof {
            if self.table.view().contains_key(token@) {
                let m = choose|m: u64| m < n && token_of(m) == token@;
                lemma_token_injective(m, n);
            }
        }
        assert(!self.table.view().contains_key(token@));
        self.table.insert(token.clone(), path, cursor);
        self.next_serial = n + 1;
        assert forall|k: Seq<char>| #[trigger] self.table.view().contains_key(k) implies exists|
            m: u64,
        | m < self.next_serial && token_of(m) == k by {
            if k != token@ {
                assert(old(self).table.view().contains_key(k));
                let m = choose|m: u64| m < n && token_of(m) == k;
                assert(m < self.next_serial && token_of(m) == k);
            } else {
                assert(n < self.next_serial && token_of(n) == k);
            }
        }
        Some(token)
    }

    /// The path `handle` was opened on, if it is open: the one the
    /// filesystem calls for a request on that handle go to.
    pub fn path_of(&self, handle: &String) -> (r: Option<String>)
        requires
            self.wf(),
        ensures
            match r {
                Some(p) => self.handles().contains_key(handle@) && p@ == self.paths()[handle@],
                None => !self.handles().contains_key(handle@),
            },
    {
        self.table.path_of(handle)
    }

    /// The error for a request this handler does not implement.
    pub fn unimplemented(&self) -> (r: StatusCode)
        ensures
            r == StatusCode::OpUnsupported,
    {
        StatusCode::OpUnsupported
    }

    /// The handshake: whatever version the client asks for, the reply
    /// names the version the protocol engine speaks.
    pub fn init(&mut self, _version: u32) -> (r: Version)
        requires
            old(self).wf(),
        ensures
            final(self).wf(),
            final(self).handles() == old(self).handles(),
            final(self).paths() == old(self).paths(),
            r.version == 3,
    {
        Version { version: engine_version() }
    }

    /// Opens the directory `path` under a new token, unique among the open
    /// handles; `opened` tells whether the filesystem could open it.
    pub fn opendir(&mut self, id: u32, path: String, opened: bool) -> (r: Result<Handle, StatusCode>)
        requires
            old(self).wf(),
        ensures
            final(self).wf(),
            opened && old(self).serial() < u64::MAX ==> {
                &&& r is Ok
                &&& r->Ok_0.id == id
                &&& r->Ok_0.handle@ == token_of(old(self).serial())
                &&& !old(self).handles().contains_key(r->Ok_0.handle@)
                &&& final(self).handles() == old(self).handles().insert(
                    r->Ok_0.handle@,
                    Cursor::Directory { exhausted: false },
                )
                &&& final(self).paths() == old(self).paths().insert(r->Ok_0.handle@, path@)
                &&& final(self).serial() == old(self).serial() + 1
            },
            !opened ==> {
                &&& r == Err::<Handle, StatusCode>(StatusCode::NoSuchFile)
                &&& final(self).handles() == old(self).handles()
                &&& final(self).paths() == old(self).paths()
                &&& final(self).serial() == old(self).serial()
            },
            opened && old(self).serial() == u64::MAX ==> {
                &&& r == Err::<Handle, StatusCode>(StatusCode::Failure)
                &&& final(self).handles() == old(self).handles()
                &&& final(self).paths() == old(self).paths()
            },
    {
        if !opened {
            return Err(StatusCode::NoSuchFile);
        }
        match self.open_handle(path, Cursor::Directory { exhausted: false }) {
            Some(token) => Ok(Handle { id, handle: token }),
            None => Err(StatusCode::Failure),
        }
    }

    /// Opens the file `filename` for reading or writing under a new token,
    /// unique among the open handles, with `size` bytes as the filesystem
    /// reports them now (0 if it does not exist yet: it is created by the
    /// first write). Nothing is delivered yet.
    pub fn open(&mut self, id: u32, filename: String, size: u64) -> (r: Result<Handle, StatusCode>)
        requires
            old(self).wf(),
        ensures
            final(self).wf(),
            old(self).serial() < u64::MAX ==> {
                &&& r is Ok
                &&& r->Ok_0.id == id
                &&& r->Ok_0.handle@ == token_of(old(self).serial())
                &&& !old(self).handles().contains_key(r->Ok_0.handle@)
                &&& final(self).handles() == old(self).handles().insert(
                    r->Ok_0.handle@,
                    Cursor::File { size, delivered: 0 },
                )
                &&& final(self).paths() == old(self).paths().insert(r->Ok_0.handle@, filename@)
                &&& final(self).serial() == old(self).serial() + 1
            },
            old(self).serial() == u64::MAX ==> {
                &&& r == Err::<Handle, StatusCode>(StatusCode::Failure)
                &&& final(self).handles() == old(self).handles()
                &&& final(self).paths() == old(self).paths()
            },
    {
        match self.open_handle(filename, Cursor::File { size, delivered: 0 }) {
            Some(token) => Ok(Handle { id, handle: token }),
            None => Err(StatusCode::Failure),
        }
    }

    /// Closes `handle`; the reply is always a success.
    pub fn close(&mut self, id: u32, handle: String) -> (r: Status)
        requires
            old(self).wf(),
        ensures
            final(self).wf(),
            final(self).handles() == old(self).handles().remove(handle@),
            final(self).paths() == old(self).paths().remove(handle@),
            is_status(r, id, StatusCode::Success, "Ok"@),
    {
        self.table.remove(&handle);
        status(id, StatusCode::Success, "Ok".to_string())
    }

    /// Whether a directory read on `handle` is answered without listing:
    /// `None` means the directory at `path_of(handle)` must be listed and
    /// the listing handed to `readdir`.
    pub fn readdir_check(&self, handle: &String) -> (r: Option<StatusCode>)
        requires
            self.wf(),
        ensures
            r == readdir_blocker(self.handles(), handle@),
    {
        match self.table.get(handle) {
            None => Some(StatusCode::NoSuchFile),
            Some(Cursor::Directory { exhausted }) => if exhausted {
                Some(StatusCode::Eof)
            } else {
                None
            },
            Some(Cursor::File { .. }) => Some(StatusCode::NoSuchFile),
        }
    }

    /// Reads the directory of `handle`: the whole `listing` once, then end
    /// of data. `listing` is what listing the directory gave (`None` if it
    /// could not be listed); it is ignored when `readdir_check` answers.
    pub fn readdir(&mut self, id: u32, handle: String, listing: Option<Vec<File>>) -> (r: Result<
        Name,
        StatusCode,
    >)
        requires
            old(self).wf(),
        ensures
            final(self).wf(),
            final(self).paths() == old(self).paths(),
            match readdir_blocker(old(self).handles(), handle@) {
                Some(code) => r == Err::<Name, StatusCode>(code) && final(self).handles() == old(self).handles(),
                None => match listing {
                    Some(files) => r == Ok::<Name, StatusCode>(Name { id, files })
                        && final(self).handles() == old(self).handles().insert(
                        handle@,
                        Cursor::Directory { exhausted: true },
                    ),
                    None => r == Err::<Name, StatusCode>(StatusCode::NoSuchFile) && final(self).handles() == old(self).handles(),
                },
            },
    {
        match self.readdir_check(&handle) {
            Some(code) => Err(code),
            None => match listing {
                Some(files) => {
                    self.table.update(&handle, Cursor::Directory { exhausted: true });
                    Ok(Name { id, files })
                },
                None => Err(StatusCode::NoSuchFile),
            },
        }
    }

    /// Whether a read on `handle` is answered without reading: `None` means
    /// the file at `path_of(handle)` must be read and the bytes handed to
    /// `read`.
    pub fn read_check(&self, handle: &String) -> (r: Option<StatusCode>)
        requires
            self.wf(),
        ensures
            r == read_blocker(self.handles(), handle@),
    {
        match self.table.get(handle) {
            None => Some(StatusCode::NoSuchFile),
            Some(Cursor::File { size, delivered }) => if delivered >= size {
                Some(StatusCode::Eof)
            } else {
                None
            },
            Some(Cursor::Directory { .. }) => Some(StatusCode::NoSuchFile),
        }
    }

    /// Reads at most `len` bytes from the file of `handle`. `outcome` is what
    /// reading the file at the requested offset gave (`None` if it could not
    /// be opened); it is ignored when `read_check` answers. The reply holds
    /// at most `len` bytes, and never more than the handle's recorded size
    /// leaves undelivered. The bytes delivered are added to the handle's
    /// count; once the count reaches the recorded size, later reads get end
    /// of data.
    pub fn read(&mut self, id: u32, handle: String, len: u32, outcome: Option<Vec<u8>>) -> (r:
        Result<Data, StatusCode>)
        requires
            old(self).wf(),
        ensures
            final(self).wf(),
            final(self).paths() == old(self).paths(),
            outcome is Some ==> final(self).handles() == read_step(
                old(self).handles(),
                handle@,
                outcome->Some_0@.len(),
                len,
            ),
            match read_blocker(old(self).handles(), handle@) {
                Some(code) => r == Err::<Data, StatusCode>(code) && final(self).handles() == old(self).handles(),
                None => match outcome {
                    Some(bytes) => {
                        let n = chunk_len(bytes@.len(), len, remaining(old(self).handles()[handle@]));
                        &&& r is Ok
                        &&& r->Ok_0.data@.len() <= remaining(old(self).handles()[handle@])
                        &&& r->Ok_0.id == id
                        &&& r->Ok_0.data@ == bytes@.take(n as int)
                        &&& final(self).handles() == old(self).handles().insert(
                            handle@,
                            advanced(old(self).handles()[handle@], n),
                        )
                    },
                    None => r == Err::<Data, StatusCode>(StatusCode::NoSuchFile) && final(self).handles() == old(self).handles(),
                },
            },
    {
        match self.read_check(&handle) {
            Some(code) => Err(code),
            None => match outcome {
                Some(bytes) => {
                    let (size, delivered) = match self.table.get(&handle) {
                        Some(Cursor::File { size, delivered }) => (size, delivered),
                        _ => {
                            proof {
                                assert(false);
                            }
                            return Err(StatusCode::NoSuchFile);
                        },
                    };
                    let left: u64 = size - delivered;
                    let mut n: usize = if bytes.len() < len as usize {
                        bytes.len()
                    } else {
                        len as usize
                    };
                    if n as u64 > left {
                        n = left as usize;
                    }
                    let mut data = bytes;
                    data.truncate(n);
                    self.table.update(&handle, Cursor::File { size, delivered: delivered + n as u64 });
                    Ok(Data { id, data })
                },
                None => Err(StatusCode::NoSuchFile),
            },
        }
    }

    /// Replies to a write on `handle`: from what writing to the file at
    /// `path_of(handle)` reported, or "no such file" when `handle` is not an
    /// open file handle (`outcome` is then ignored).
    pub fn write(&mut self, id: u32, handle: String, outcome: Result<(), String>) -> (r: Status)
        requires
            old(self).wf(),
        ensures
            final(self).wf(),
            final(self).handles() == old(self).handles(),
            final(self).paths() == old(self).paths(),
            write_reply(r, id, old(self).handles(), handle@, outcome),
    {
        match self.table.get(&handle) {
            Some(Cursor::File { .. }) => completion(id, outcome),
            _ => status(id, StatusCode::NoSuchFile, "No such file".to_string()),
        }
    }

    /// Replies to the removal of a file from what the filesystem reported.
    pub fn remove(&mut self, id: u32, _path: String, outcome: Result<(), String>) -> (r: Status)
        requires
            old(self).wf(),
        ensures
            final(self).wf(),
            final(self).handles() == old(self).handles(),
            final(self).paths() == old(self).paths(),
            completion_reply(r, id, outcome),
    {
        completion(id, outcome)
    }

    /// Replies to the removal of a directory from what the filesystem reported.
    pub fn rmdir(&mut self, id: u32, _path: String, outcome: Result<(), String>) -> (r: Status)
        requires
            old(self).wf(),
        ensures
            final(self).wf(),
            final(self).handles() == old(self).handles(),
            final(self).paths() == old(self).paths(),
            completion_reply(r, id, outcome),
    {
        completion(id, outcome)
    }

    /// Replies to the creation of a directory from what the filesystem reported.
    pub fn mkdir(&mut self, id: u32, _path: String, outcome: Result<(), String>) -> (r: Status)
        requires
            old(self).wf(),
        ensures
            final(self).wf(),
            final(self).handles() == old(self).handles(),
            final(self).paths() == old(self).paths(),
            completion_reply(r, id, outcome),
    {
        completion(id, outcome)
    }

    /// Replies to a path resolution: the canonical path the filesystem gave,
    /// as the one entry of a name reply, or "no such file".
    pub fn realpath(&mut self, id: u32, resolved: Option<String>) -> (r: Result<Name, StatusCode>)
        requires
            old(self).wf(),
        ensures
            final(self).wf(),
            final(self).handles() == old(self).handles(),
            final(self).paths() == old(self).paths(),
            match resolved {
                Some(p) => {
                    &&& r is Ok
                    &&& r->Ok_0.id == id
                    &&& r->Ok_0.files@.len() == 1
                    &&& r->Ok_0.files@[0].filename == p
                    &&& r->Ok_0.files@[0].longname@ == Seq::<char>::empty()
                    &&& r->Ok_0.files@[0].attrs.is_empty()
                },
                None => r == Err::<Name, StatusCode>(StatusCode::NoSuchFile),
            },
    {
        match resolved {
            Some(p) => {
                let mut files: Vec<File> = Vec::new();
                files.push(File { filename: p, longname: String::new(), attrs: FileAttributes::default() });
                Ok(Name { id, files })
            },
            None => Err(StatusCode::NoSuchFile),
        }
    }

    /// Replies to a stat of `path` with the attributes found (`None` if the
    /// path does not exist). Every open file handle on `path` records the
    /// size found as its file's size, the bound for its later reads.
    pub fn stat(&mut self, id: u32, path: String, found: Option<FileAttributes>) -> (r: Result<
        Attrs,
        StatusCode,
    >)
        requires
            old(self).wf(),
        ensures
            final(self).wf(),
            final(self).paths() == old(self).paths(),
            attrs_reply(r, id, found),
            final(self).handles() == match found {
                Some(a) => match a.size {
                    Some(size) => resized_on_path(old(self).handles(), old(self).paths(), path@, size),
                    None => old(self).handles(),
                },
                None => old(self).handles(),
            },
    {
        match &found {
            Some(a) => match a.size {
                Some(size) => {
                    self.table.resize_path(&path, size);
                    assert forall|k: Seq<char>| #[trigger] self.table.view().contains_key(k) implies exists|
                        n: u64,
                    | n < self.next_serial && token_of(n) == k by {
                        assert(old(self).table.view().contains_key(k));
                    }
                },
                None => {},
            },
            None => {},
        }
        attrs_of(id, found)
    }

    /// Replies to an lstat of a path with the attributes found.
    pub fn lstat(&mut self, id: u32, _path: String, found: Option<FileAttributes>) -> (r: Result<
        Attrs,
        StatusCode,
    >)
        requires
            old(self).wf(),
        ensures
            final(self).wf(),
            final(self).handles() == old(self).handles(),
            final(self).paths() == old(self).paths(),
            attrs_reply(r, id, found),
    {
        attrs_of(id, found)
    }

    /// Replies to a stat of `handle` with the attributes found for the file
    /// at `path_of(handle)`; "no such file" when `handle` is not open. A file
    /// handle records the size found as its file's size.
    pub fn fstat(&mut self, id: u32, handle: String, found: Option<FileAttributes>) -> (r: Result<
        Attrs,
        StatusCode,
    >)
        requires
            old(self).wf(),
        ensures
            final(self).wf(),
            final(self).paths() == old(self).paths(),
            !old(self).handles().contains_key(handle@) ==> r == Err::<Attrs, StatusCode>(
                StatusCode::NoSuchFile,
            ) && final(self).handles() == old(self).handles(),
            old(self).handles().contains_key(handle@) ==> attrs_reply(r, id, found),
            final(self).handles() == match found {
                Some(a) => match a.size {
                    Some(size) => resized(old(self).handles(), handle@, size),
                    None => old(self).handles(),
                },
                None => old(self).handles(),
            },
    {
        match self.table.get(&handle) {
            None => return Err(StatusCode::NoSuchFile),
            Some(Cursor::File { delivered, .. }) => match &found {
                Some(a) => match a.size {
                    Some(size) => self.table.update(&handle, Cursor::File { size, delivered }),
                    None => {},
                },
                None => {},
            },
            Some(Cursor::Directory { .. }) => {},
        }
        attrs_of(id, found)
    }
}

} // verus!
