use vstd::prelude::*;
use std::io::Read;

verus! {

/// Declares the archive reader of the `zip` crate so its values can
/// run through verified code; the type stays opaque.
#[verifier::external_type_specification]
#[verifier::external_body]
#[verifier::reject_recursive_types(R)]
pub struct ExZipArchive<R>(zip::ZipArchive<R>);

/// Declares `std::io::Cursor`, the in-memory reader the archive is
/// opened over.
#[verifier::external_type_specification]
#[verifier::external_body]
#[verifier::reject_recursive_types(T)]
pub struct ExCursor<T>(std::io::Cursor<T>);

/// What an opened archive holds: the bytes it was opened from. The
/// wrappers below preserve it, so everything an archive yields is a
/// function of these bytes.
pub uninterp spec fn zip_source(a: zip::ZipArchive<std::io::Cursor<Vec<u8>>>) -> Seq<u8>;

/// The entries a byte string denotes as an archive: each a name and
/// the full text of its content, in archive order; the same for the
/// same bytes, in every process and on every machine.
pub uninterp spec fn zip_entries_of(bytes: Seq<u8>) -> Seq<(Seq<char>, Seq<char>)>;

/// Whether a byte string opens as an archive: whether its entry table
/// parses, a function of the bytes alone.
pub uninterp spec fn zip_opens(bytes: Seq<u8>) -> bool;

/// Whether entry `i` of the archive the bytes denote can be read
/// whole as text: decompression and decoding are functions of the
/// bytes and the index alone.
pub uninterp spec fn zip_entry_ok(bytes: Seq<u8>, i: int) -> bool;

/// Relies on zip::ZipArchive::new over an in-memory cursor: reading
/// the central directory is deterministic in the bytes, so the call
/// succeeds exactly when the bytes open as an archive, and the opened
/// value holds those bytes.
#[verifier::external_body]
fn open_zip(bytes: &Vec<u8>) -> (r: Result<zip::ZipArchive<std::io::Cursor<Vec<u8>>>, String>)
    ensures
        r is Ok <==> zip_opens(bytes@),
        r matches Ok(a) ==> zip_source(a) == bytes@,
{
    zip::ZipArchive::new(std::io::Cursor::new(bytes.clone())).map_err(|e| e.to_string())
}

/// Relies on zip::ZipArchive::len: the number of entries in the
/// archive's entry table.
#[verifier::external_body]
fn zip_len(a: &zip::ZipArchive<std::io::Cursor<Vec<u8>>>) -> (r: usize)
    ensures
        r == zip_entries_of(zip_source(*a)).len(),
{
    a.len()
}

/// Relies on zip::ZipArchive::name_for_index: the decoded name of the
/// i-th entry, straight from the entry table, without touching the
/// entry's content; present for every index below the length.
#[verifier::external_body]
fn zip_entry_name(a: &zip::ZipArchive<std::io::Cursor<Vec<u8>>>, i: usize) -> (r: String)
    requires
        i < zip_entries_of(zip_source(*a)).len(),
    ensures
        r@ == zip_entries_of(zip_source(*a))[i as int].0,
{
    match a.name_for_index(i) {
        Some(n) => n.to_string(),
        None => String::new(),
    }
}

/// Relies on zip::ZipArchive::by_index and std::io::Read::read_to_string,
/// which borrow the archive inseparably: the read succeeds exactly when
/// the index is in range and that entry decompresses and decodes as
/// text — both functions of the archive's bytes — and then returns the
/// entry's whole text. Reading moves the underlying cursor but never
/// the entry table or the bytes the archive was opened from.
#[verifier::external_body]
fn read_zip_entry(a: &mut zip::ZipArchive<std::io::Cursor<Vec<u8>>>, i: usize) -> (r: Result<
    String,
    String,
>)
    ensures
        zip_source(*final(a)) == zip_source(*old(a)),
        r is Ok <==> i < zip_entries_of(zip_source(*old(a))).len() && zip_entry_ok(
            zip_source(*old(a)),
            i as int,
        ),
        r matches Ok(text) ==> text@ == zip_entries_of(zip_source(*old(a)))[i as int].1,
{
    let mut f = match a.by_index(i) {
        Ok(f) => f,
        Err(e) => {
            return Err(e.to_string());
        },
    };
    let mut text = String::new();
    match f.read_to_string(&mut text) {
        Ok(_) => Ok(text),
        Err(e) => Err(e.to_string()),
    }
}

pub open spec fn xml_suffix() -> Seq<char> {
    seq!['.', 'x', 'm', 'l']
}

pub open spec fn zip_suffix() -> Seq<char> {
    seq!['.', 'z', 'i', 'p']
}

pub open spec fn has_suffix(name: Seq<char>, suffix: Seq<char>) -> bool {
    name.len() >= suffix.len() && name.skip(name.len() - suffix.len()) == suffix
}

/// Whether `s` ends in `suffix`, character for character.
#[verifier::loop_isolation(false)]
pub fn str_has_suffix(s: &str, suffix: &str) -> (r: bool)
    ensures
        r == has_suffix(s@, suffix@),
{
    let n = s.unicode_len();
    let m = suffix.unicode_len();
    if n < m {
        return false;
    }
    let mut k: usize = 0;
    while k < m
        invariant
            0 <= k <= m,
            m <= n,
            forall|j: int| 0 <= j < k ==> s@[n - m + j] == suffix@[j],
        decreases m - k,
    {
        if s.get_char(n - m + k) != suffix.get_char(k) {
            proof {
                assert(s@.skip(n - m)[k as int] != suffix@[k as int]);
            }
            return false;
        }
        k = k + 1;
    }
    proof {
        assert(s@.skip(n - m) =~= suffix@);
    }
    true
}

/// How the traversal treats a file of this name.
#[derive(Clone, Copy, Debug, PartialEq, Eq, Structural)]
pub enum FileKind {
    /// A loose document, recognized by the `.xml` suffix.
    Document,
    /// A container to unwrap, recognized by the `.zip` suffix.
    Archive,
    /// Anything else, passed over.
    Other,
}

pub open spec fn spec_classify(name: Seq<char>) -> FileKind {
    if has_suffix(name, xml_suffix()) {
        FileKind::Document
    } else if has_suffix(name, zip_suffix()) {
        FileKind::Archive
    } else {
        FileKind::Other
    }
}

/// Classify a file name by its suffix.
pub fn classify_name(name: &str) -> (k: FileKind)
    ensures
        k == spec_classify(name@),
{
    proof {
        reveal_strlit(".xml");
        reveal_strlit(".zip");
        assert(".xml"@ =~= xml_suffix());
        assert(".zip"@ =~= zip_suffix());
    }
    if str_has_suffix(name, ".xml") {
        FileKind::Document
    } else if str_has_suffix(name, ".zip") {
        FileKind::Archive
    } else {
        FileKind::Other
    }
}

/// The texts of the entries whose names end in the document suffix,
/// in entry order.
pub open spec fn xml_entry_texts(entries: Seq<(Seq<char>, Seq<char>)>) -> Seq<Seq<char>>
    decreases entries.len(),
{
    if entries.len() == 0 {
        Seq::empty()
    } else {
        xml_entry_texts(entries.drop_last()) + if has_suffix(entries.last().0, xml_suffix()) {
            seq![entries.last().1]
        } else {
            Seq::empty()
        }
    }
}

/// When unwrapping a container succeeds: its bytes open as an archive
/// and every document-named entry reads whole as text. Entries with
/// other names are never read, so they cannot fail the run.
pub open spec fn spec_zip_extract_ok(bytes: Seq<u8>) -> bool {
    &&& zip_opens(bytes)
    &&& forall|i: int|
        0 <= i < zip_entries_of(bytes).len() && has_suffix(
            zip_entries_of(bytes)[i].0,
            xml_suffix(),
        ) ==> #[trigger] zip_entry_ok(bytes, i)
}

/// One file the traversal found, already read: a loose document's
/// text, or a container's raw bytes.
#[derive(Clone, Debug)]
pub enum SourceFile {
    Document(String),
    Archive(Vec<u8>),
}

pub enum SourceFileV {
    Document(Seq<char>),
    Archive(Seq<u8>),
}

impl View for SourceFile {
    type V = SourceFileV;

    open spec fn view(&self) -> SourceFileV {
        match self {
            SourceFile::Document(t) => SourceFileV::Document(t@),
            SourceFile::Archive(b) => SourceFileV::Archive(b@),
        }
    }
}

/// What one source contributes to the traversal's yield: a document
/// its own text, a container the texts of its document entries.
pub open spec fn spec_source_texts(f: SourceFileV) -> Seq<Seq<char>> {
    match f {
        SourceFileV::Document(t) => seq![t],
        SourceFileV::Archive(b) => xml_entry_texts(zip_entries_of(b)),
    }
}

/// Every document text the sources yield, in source order.
pub open spec fn spec_all_texts(fs: Seq<SourceFileV>) -> Seq<Seq<char>>
    decreases fs.len(),
{
    if fs.len() == 0 {
        Seq::empty()
    } else {
        spec_all_texts(fs.drop_last()) + spec_source_texts(fs.last())
    }
}

/// When the traversal step succeeds: every container among the sources
/// unwraps. Loose documents never fail.
pub open spec fn spec_sources_ok(fs: Seq<SourceFileV>) -> bool {
    forall|i: int|
        0 <= i < fs.len() ==> ((#[trigger] fs[i]) matches SourceFileV::Archive(b)
            ==> spec_zip_extract_ok(b))
}

/// The document-extraction front end.
pub struct XmlExtractor;

impl XmlExtractor {
    /// Unwrap one container held in memory: exactly the texts of its
    /// document-named entries, byte for byte, in entry order. Succeeds
    /// exactly when the bytes open as an archive and every
    /// document-named entry reads as text; entries with other names
    /// are skipped without being read. A failure is fatal to the run.
    #[verifier::loop_isolation(false)]
    pub fn extract_from_zip(bytes: &Vec<u8>) -> (r: Result<Vec<String>, String>)
        ensures
            r is Ok <==> spec_zip_extract_ok(bytes@),
            r matches Ok(texts) ==> texts@.map_values(|t: String| t@) == xml_entry_texts(
                zip_entries_of(bytes@),
            ),
    {
        let mut archive = match open_zip(bytes) {
            Ok(a) => a,
            Err(e) => {
                return Err(e);
            },
        };
        let ghost ents = zip_entries_of(bytes@);
        let n = zip_len(&archive);
        let mut out: Vec<String> = Vec::new();
        let mut i: usize = 0;
        proof {
            assert(ents.take(0) =~= Seq::<(Seq<char>, Seq<char>)>::empty());
            assert(out@.map_values(|t: String| t@) =~= Seq::<Seq<char>>::empty());
            reveal_strlit(".xml");
            assert(".xml"@ =~= xml_suffix());
        }
        while i < n
            invariant
                0 <= i <= n == ents.len(),
                zip_source(archive) == bytes@,
                out@.map_values(|t: String| t@) == xml_entry_texts(ents.take(i as int)),
                forall|j: int|
                    0 <= j < i && has_suffix(ents[j].0, xml_suffix()) ==> #[trigger] zip_entry_ok(
                        bytes@,
                        j,
                    ),
            decreases n - i,
        {
            proof {
                assert(ents.take(i + 1).drop_last() =~= ents.take(i as int));
                assert(ents.take(i + 1).last() == ents[i as int]);
            }
            let name = zip_entry_name(&archive, i);
            if str_has_suffix(name.as_str(), ".xml") {
                let text = match read_zip_entry(&mut archive, i) {
                    Ok(t) => t,
                    Err(e) => {
                        proof {
                            assert(!zip_entry_ok(bytes@, i as int));
                            assert(!spec_zip_extract_ok(bytes@));
                        }
                        return Err(e);
                    },
                };
                let ghost prev = out@;
                out.push(text);
                proof {
                    assert(out@.map_values(|t: String| t@) =~= prev.map_values(|t: String| t@)
                        + seq![ents[i as int].1]);
                }
            } else {
                proof {
                    assert(out@.map_values(|t: String| t@) =~= xml_entry_texts(ents.take(i as int))
                        + Seq::<Seq<char>>::empty());
                }
            }
            i = i + 1;
        }
        proof {
            assert(ents.take(n as int) =~= ents);
        }
        Ok(out)
    }

    /// Run the traversal step over sources already read from the tree:
    /// keep every loose document's text, unwrap every container one
    /// level, in source order. Succeeds exactly when every container
    /// unwraps; a failing container aborts the whole run with no
    /// partial result.
    #[verifier::loop_isolation(false)]
    pub fn load_all_xmls(files: Vec<SourceFile>) -> (r: Result<Vec<String>, String>)
        ensures
            r is Ok <==> spec_sources_ok(files@.map_values(|f: SourceFile| f@)),
            r matches Ok(texts) ==> texts@.map_values(|t: String| t@) == spec_all_texts(
                files@.map_values(|f: SourceFile| f@),
            ),
    {
        let ghost views = files@.map_values(|f: SourceFile| f@);
        let n = files.len();
        let mut files = files;
        let mut out: Vec<String> = Vec::new();
        let mut i: usize = 0;
        proof {
            assert(views.take(0) =~= Seq::<SourceFileV>::empty());
            assert(out@.map_values(|t: String| t@) =~= Seq::<Seq<char>>::empty());
            assert(files@.map_values(|f: SourceFile| f@) =~= views.skip(0));
        }
        while i < n
            invariant
                0 <= i <= n,
                files@.len() == n - i,
                files@.map_values(|f: SourceFile| f@) == views.skip(i as int),
                out@.map_values(|t: String| t@) == spec_all_texts(views.take(i as int)),
                forall|j: int|
                    0 <= j < i ==> ((#[trigger] views[j]) matches SourceFileV::Archive(b)
                        ==> spec_zip_extract_ok(b)),
            decreases n - i,
        {
            proof {
                assert(views.take(i + 1).drop_last() =~= views.take(i as int));
                assert(views.take(i + 1).last() == views[i as int]);
                assert(files@[0]@ == views.skip(i as int)[0]);
                assert(views.skip(i as int)[0] == views[i as int]);
            }
            let ghost before = files@;
            let file = files.remove(0);
            proof {
                assert(files@ =~= before.skip(1));
                assert(before.skip(1).map_values(|f: SourceFile| f@) =~= before.map_values(
                    |f: SourceFile| f@,
                ).skip(1));
                assert(views.skip(i as int).skip(1) =~= views.skip(i + 1));
                assert(files@.map_values(|f: SourceFile| f@) == views.skip(i + 1));
            }
            match file {
                SourceFile::Document(text) => {
                    let ghost prev = out@;
                    out.push(text);
                    proof {
                        assert(out@.map_values(|t: String| t@) =~= prev.map_values(|t: String| t@)
                            + spec_source_texts(views[i as int]));
                    }
                },
                SourceFile::Archive(bytes) => {
                    match Self::extract_from_zip(&bytes) {
                        Ok(mut texts) => {
                            let ghost prev = out@;
                            let ghost inner = texts@;
                            out.append(&mut texts);
                            proof {
                                assert(out@ =~= prev + inner);
                                assert(out@.map_values(|t: String| t@) =~= prev.map_values(
                                    |t: String| t@,
                                ) + inner.map_values(|t: String| t@));
                            }
                        },
                        Err(e) => {
                            proof {
                                assert(views[i as int] matches SourceFileV::Archive(b)
                                    && !spec_zip_extract_ok(b));
                                assert(!spec_sources_ok(views));
                            }
                            return Err(e);
                        },
                    }
                },
            }
            i = i + 1;
        }
        proof {
            assert(views.take(n as int) =~= views);
            assert(spec_sources_ok(views));
        }
        Ok(out)
    }
}

} // verus!
