//! The directory in which certificates and keys are kept, as it is held in
//! memory: what each file holds, and the writes that are still to be made.

use vstd::prelude::*;

verus! {

/// A file of the cache directory.
#[derive(Debug, Clone, Copy, PartialEq, Eq, Structural)]
pub enum CacheFile {
    /// The root certificate.
    CaCert,
    /// The key of the root.
    CaKey,
    /// The server certificate, followed by the root certificate.
    Cert,
    /// The key of the server certificate.
    Key,
    /// The addresses that the server certificate covers, one on each line.
    IpList,
    /// The version of the layout of the cache.
    Version,
    /// The moment from which the server certificate is to be replaced.
    RenewAt,
}

impl CacheFile {
    /// The name of the file in the directory.
    pub open spec fn name(self) -> Seq<char> {
        match self {
            CacheFile::CaCert => "ca-cert.pem"@,
            CacheFile::CaKey => "ca-key.pem"@,
            CacheFile::Cert => "cert.pem"@,
            CacheFile::Key => "key.pem"@,
            CacheFile::IpList => "ip.txt"@,
            CacheFile::Version => "tls-version.txt"@,
            CacheFile::RenewAt => "leaf-renew-at.txt"@,
        }
    }

    /// The name of the file in the directory.
    pub fn file_name(self) -> (r: &'static str)
        ensures
            r@ == self.name(),
    {
        match self {
            CacheFile::CaCert => "ca-cert.pem",
            CacheFile::CaKey => "ca-key.pem",
            CacheFile::Cert => "cert.pem",
            CacheFile::Key => "key.pem",
            CacheFile::IpList => "ip.txt",
            CacheFile::Version => "tls-version.txt",
            CacheFile::RenewAt => "leaf-renew-at.txt",
        }
    }
}

/// What is known of a file.
#[derive(Debug)]
pub enum Entry {
    /// There is no such file.
    Absent,
    /// The file holds this text.
    Text(String),
    /// There is such a file, but it cannot be read as text; what the error says.
    Unreadable(String),
}

/// The contents of an [`Entry`].
pub enum Content {
    Absent,
    Text(Seq<char>),
    Unreadable(Seq<char>),
}

impl View for Entry {
    type V = Content;

    open spec fn view(&self) -> Content {
        match self {
            Entry::Absent => Content::Absent,
            Entry::Text(s) => Content::Text(s@),
            Entry::Unreadable(e) => Content::Unreadable(e@),
        }
    }
}

impl Content {
    /// The text of the file, or the empty text where there is none to be had.
    pub open spec fn or_empty(self) -> Seq<char> {
        match self {
            Content::Text(s) => s,
            _ => Seq::empty(),
        }
    }
}

/// A write that is to be made to the directory.
#[derive(Debug)]
pub struct CacheWrite {
    pub file: CacheFile,
    pub text: String,
}

impl View for CacheWrite {
    type V = (CacheFile, Seq<char>);

    open spec fn view(&self) -> (CacheFile, Seq<char>) {
        (self.file, self.text@)
    }
}

/// The contents of a [`CacheDir`]: the files as they are once all writes are
/// made, and the writes in the order in which they are to be made.
#[verifier::ext_equal]
pub struct DirState {
    pub files: Map<CacheFile, Content>,
    pub writes: Seq<(CacheFile, Seq<char>)>,
}

impl DirState {
    /// The directory once it is known what a file holds.
    pub open spec fn found(self, file: CacheFile, content: Content) -> DirState {
        DirState { files: self.files.insert(file, content), writes: self.writes }
    }

    /// The directory after one more write.
    pub open spec fn write(self, file: CacheFile, text: Seq<char>) -> DirState {
        DirState {
            files: self.files.insert(file, Content::Text(text)),
            writes: self.writes.push((file, text)),
        }
    }
}

/// The files after the writes have been made one after the other.
pub open spec fn replayed(
    files: Map<CacheFile, Content>,
    writes: Seq<(CacheFile, Seq<char>)>,
) -> Map<CacheFile, Content>
    decreases writes.len(),
{
    if writes.len() == 0 {
        files
    } else {
        replayed(files, writes.drop_last()).insert(
            writes.last().0,
            Content::Text(writes.last().1),
        )
    }
}

/// The cache directory.
#[derive(Debug)]
pub struct CacheDir {
    ca_cert: Entry,
    ca_key: Entry,
    cert: Entry,
    key: Entry,
    ip_list: Entry,
    version: Entry,
    renew_at: Entry,
    writes: Vec<CacheWrite>,
}

impl View for CacheDir {
    type V = DirState;

    closed spec fn view(&self) -> DirState {
        DirState {
            files: Map::new(|f: CacheFile| true, |f: CacheFile| self.entry(f)@),
            writes: self.writes@.map_values(|w: CacheWrite| w@),
        }
    }
}

impl CacheDir {
    spec fn entry(&self, file: CacheFile) -> Entry {
        match file {
            CacheFile::CaCert => self.ca_cert,
            CacheFile::CaKey => self.ca_key,
            CacheFile::Cert => self.cert,
            CacheFile::Key => self.key,
            CacheFile::IpList => self.ip_list,
            CacheFile::Version => self.version,
            CacheFile::RenewAt => self.renew_at,
        }
    }

    /// A directory without files.
    pub fn empty() -> (r: Self)
        ensures
            r@.files == Map::new(|f: CacheFile| true, |f: CacheFile| Content::Absent),
            r@.writes == Seq::<(CacheFile, Seq<char>)>::empty(),
    {
        let r = CacheDir {
            ca_cert: Entry::Absent,
            ca_key: Entry::Absent,
            cert: Entry::Absent,
            key: Entry::Absent,
            ip_list: Entry::Absent,
            version: Entry::Absent,
            renew_at: Entry::Absent,
            writes: Vec::new(),
        };
        assert(r@.files =~= Map::new(|f: CacheFile| true, |f: CacheFile| Content::Absent));
        assert(r@.writes =~= Seq::<(CacheFile, Seq<char>)>::empty());
        r
    }

    fn put(&mut self, file: CacheFile, entry: Entry)
        ensures
            final(self)@.files == old(self)@.files.insert(file, entry@),
            final(self)@.writes == old(self)@.writes,
    {
        match file {
            CacheFile::CaCert => {
                self.ca_cert = entry;
            },
            CacheFile::CaKey => {
                self.ca_key = entry;
            },
            CacheFile::Cert => {
                self.cert = entry;
            },
            CacheFile::Key => {
                self.key = entry;
            },
            CacheFile::IpList => {
                self.ip_list = entry;
            },
            CacheFile::Version => {
                self.version = entry;
            },
            CacheFile::RenewAt => {
                self.renew_at = entry;
            },
        }
        assert(self@.files =~= old(self)@.files.insert(file, entry@));
    }

    /// Records what was found of a file in the directory on disk.
    pub fn found(&mut self, file: CacheFile, entry: Entry)
        ensures
            final(self)@ == old(self)@.found(file, entry@),
            final(self)@.files == old(self)@.files.insert(file, entry@),
            final(self)@.writes == old(self)@.writes,
    {
        self.put(file, entry);
    }

    /// Writes a file.
    pub fn write(&mut self, file: CacheFile, text: &String)
        ensures
            final(self)@ == old(self)@.write(file, text@),
    {
        let ghost before = self@;
        self.put(file, Entry::Text(text.clone()));
        let w = CacheWrite { file, text: text.clone() };
        self.writes.push(w);
        assert(self@.files =~= before.files.insert(file, Content::Text(text@)));
        assert(self@.writes =~= before.writes.push((file, text@)));
    }

    /// What is known of a file.
    pub fn get(&self, file: CacheFile) -> (r: &Entry)
        ensures
            r@ == self@.files[file],
    {
        match file {
            CacheFile::CaCert => &self.ca_cert,
            CacheFile::CaKey => &self.ca_key,
            CacheFile::Cert => &self.cert,
            CacheFile::Key => &self.key,
            CacheFile::IpList => &self.ip_list,
            CacheFile::Version => &self.version,
            CacheFile::RenewAt => &self.renew_at,
        }
    }

    /// Whether there is such a file.
    pub fn has_file(&self, file: CacheFile) -> (r: bool)
        ensures
            r == !(self@.files[file] is Absent),
    {
        match self.get(file) {
            Entry::Absent => false,
            _ => true,
        }
    }

    /// The text of a file, if it can be had.
    pub fn read(&self, file: CacheFile) -> (r: Option<String>)
        ensures
            match self@.files[file] {
                Content::Text(s) => r is Some && r.unwrap()@ == s,
                _ => r is None,
            },
    {
        match self.get(file) {
            Entry::Text(s) => Some(s.clone()),
            _ => None,
        }
    }

    /// The text of a file, or the empty text where there is none to be had.
    pub fn read_or_empty(&self, file: CacheFile) -> (r: String)
        ensures
            r@ == self@.files[file].or_empty(),
    {
        match self.get(file) {
            Entry::Text(s) => s.clone(),
            _ => String::new(),
        }
    }

    /// The writes that are to be made, in order.
    pub fn pending(&self) -> (r: &Vec<CacheWrite>)
        ensures
            r@.map_values(|w: CacheWrite| w@) == self@.writes,
    {
        &self.writes
    }
}

/// Whether `after` follows from `before` by writes alone: the earlier writes
/// still stand, and making the new ones on the files from before gives the
/// files from after.
pub open spec fn by_writes(before: DirState, after: DirState) -> bool {
    &&& before.writes.is_prefix_of(after.writes)
    &&& after.files == replayed(before.files, after.writes.skip(before.writes.len() as int))
}

/// A directory follows from itself.
pub proof fn unchanged_is_by_writes(dir: DirState)
    ensures
        by_writes(dir, dir),
{
    assert(dir.writes.skip(dir.writes.len() as int) =~= Seq::<(CacheFile, Seq<char>)>::empty());
}

/// One more write keeps the pending writes and the files in step.
pub proof fn write_is_by_writes(before: DirState, dir: DirState, file: CacheFile, text: Seq<char>)
    requires
        by_writes(before, dir),
    ensures
        by_writes(before, dir.write(file, text)),
{
    let n = before.writes.len() as int;
    let after = dir.write(file, text);
    let added = after.writes.skip(n);
    assert(added.drop_last() =~= dir.writes.skip(n));
    assert(added.last() == (file, text));
}

/// A file holds what was last written to it, the other files are as they were,
/// and the write is remembered behind the earlier ones.
pub proof fn file_holds_what_was_written(
    dir: DirState,
    file: CacheFile,
    text: Seq<char>,
    other: CacheFile,
    i: int,
)
    ensures
        dir.write(file, text).files[file] == Content::Text(text),
        other != file ==> dir.write(file, text).files[other] == dir.files[other],
        dir.write(file, text).writes.len() == dir.writes.len() + 1,
        dir.write(file, text).writes.last() == (file, text),
        0 <= i < dir.writes.len() ==> dir.write(file, text).writes[i] == dir.writes[i],
{
}

/// Only a file that can be read has a text; any other counts as empty.
pub proof fn only_texts_are_read(content: Content, text: Seq<char>)
    ensures
        Content::Text(text).or_empty() == text,
        !(content is Text) ==> content.or_empty().len() == 0,
{
}

/// No two files have the same name.
pub proof fn names_tell_files_apart(a: CacheFile, b: CacheFile)
    requires
        a.name() == b.name(),
    ensures
        a == b,
{
    reveal_strlit("ca-cert.pem");
    reveal_strlit("ca-key.pem");
    reveal_strlit("cert.pem");
    reveal_strlit("key.pem");
    reveal_strlit("ip.txt");
    reveal_strlit("tls-version.txt");
    reveal_strlit("leaf-renew-at.txt");
    assert("ca-cert.pem"@.len() == 11);
    assert("ca-key.pem"@.len() == 10);
    assert("cert.pem"@.len() == 8);
    assert("key.pem"@.len() == 7);
    assert("ip.txt"@.len() == 6);
    assert("tls-version.txt"@.len() == 15);
    assert("leaf-renew-at.txt"@.len() == 17);
    assert(a.name().len() == b.name().len());
}

/// What was found of a file is what is known of it; the other files are as they
/// were, and there is no more to write than before.
pub proof fn found_file_is_known(
    dir: DirState,
    file: CacheFile,
    content: Content,
    other: CacheFile,
)
    ensures
        dir.found(file, content).files[file] == content,
        other != file ==> dir.found(file, content).files[other] == dir.files[other],
        dir.found(file, content).writes == dir.writes,
{
}

} // verus!
