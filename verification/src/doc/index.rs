//! Building the repository-wide index from the markdown files of a repository scan.
use crate::doc::frontmatter::{extract_frontmatter_block, frontmatter_block, frontmatter_from_raw, frontmatter_spec, RawFrontmatter};
use crate::doc::load::{design_id, directory_error, file_stem, frontmatter_error, invalid_field, md_stem, parse_design_id, parse_prd_id, parse_status, parse_task_id, prd_id, status_result, task_id, validate_directory, validate_frontmatter};
use crate::doc::path::{classify, classify_path, rel_path, DispositionView, PathDisposition};
use crate::doc::types::{id_string, id_type, ids_ascending, lemma_ascending_ids_are_unique, lemma_doc_position, lemma_sorted_insert_ascending, lemma_sorted_insert_split, lookup, sorted_insert, unique_ids, DocId, DocType, Document, DocumentIndex, DocumentMap, DocumentView, Frontmatter, FrontmatterView, IndexView, InvalidEntryView, InvalidManagedEntry, SpecDocId, entries_view};
use crate::error::{error_text, DocumentModelError, ModelErrorView};
use crate::text::{append, concat2, concat3, join_strings, owned, pieces_view, trim, trim_str};
use vstd::prelude::*;

verus! {

/// The id and type that a disposition and filename declare.
pub open spec fn declared_id(parts: Seq<Seq<char>>, disp: DispositionView) -> Result<
    (DocType, SpecDocId),
    ModelErrorView,
> {
    let path = rel_path(parts);
    let stem = md_stem(parts.last());
    match disp {
        DispositionView::Prd => if parts.len() == 0 {
            Err(ModelErrorView::InvalidFilename { path, doc_type: "unknown"@ })
        } else {
            match prd_id(path, stem) {
                Ok(id) => Ok((DocType::Prd, id)),
                Err(e) => Err(e),
            }
        },
        DispositionView::Design => if parts.len() == 0 {
            Err(ModelErrorView::InvalidFilename { path, doc_type: "unknown"@ })
        } else {
            match design_id(path, stem) {
                Ok(id) => match id {
                    SpecDocId::DesignPatch { .. } => Ok((DocType::DesignPatch, id)),
                    _ => Ok((DocType::DesignDoc, id)),
                },
                Err(e) => Err(e),
            }
        },
        DispositionView::ExecPlan { exec_slug } => Ok(
            (DocType::ExecPlan, SpecDocId::ExecPlan(exec_slug)),
        ),
        DispositionView::Task { exec_slug } => if parts.len() == 0 {
            Err(ModelErrorView::InvalidFilename { path, doc_type: "unknown"@ })
        } else {
            match task_id(path, stem, exec_slug) {
                Ok(id) => Ok((DocType::TaskSpec, id)),
                Err(e) => Err(e),
            }
        },
        DispositionView::FixedManaged(t) => if t == DocType::ProjectSpec {
            Ok((t, SpecDocId::ProjectSpec))
        } else if t == DocType::OrgSpec {
            Ok((t, SpecDocId::OrgSpec))
        } else {
            Err(ModelErrorView::InvalidManagedPath { path })
        },
        DispositionView::GuidelineManaged(g) => Ok((DocType::Guideline, SpecDocId::Guideline(g))),
        DispositionView::InvalidManaged(reason) => Err(invalid_field(path, "path"@, reason)),
        DispositionView::Ignored => Err(ModelErrorView::InvalidManagedPath { path }),
    }
}

pub open spec fn trimmed_title(t: Option<Seq<char>>) -> Option<Seq<char>> {
    match t {
        Some(x) => Some(trim(x)),
        None => None,
    }
}

/// The document that a managed file becomes, or the first rule it violates.
pub open spec fn document_from(
    parts: Seq<Seq<char>>,
    absolute: Seq<char>,
    disp: DispositionView,
    raw: Seq<char>,
    fm: FrontmatterView,
) -> Result<DocumentView, ModelErrorView> {
    let path = rel_path(parts);
    let parent = if parts.len() == 0 {
        Seq::empty()
    } else {
        rel_path(parts.drop_last())
    };
    match declared_id(parts, disp) {
        Err(e) => Err(e),
        Ok((t, id)) => match frontmatter_error(path, t, id, fm) {
            Some(e) => Err(e),
            None => match status_result(path, t, fm) {
                Err(e) => Err(e),
                Ok(status) => match directory_error(parent, path, t, id, status) {
                    Some(e) => Err(e),
                    None => Ok(
                        DocumentView {
                            id,
                            doc_type: t,
                            status,
                            title: trimmed_title(fm.title),
                            path: absolute,
                            frontmatter: fm,
                            raw,
                        },
                    ),
                },
            },
        },
    }
}

fn declared_id_exec(parts: &Vec<String>, path: &str, disposition: PathDisposition) -> (r: Result<
    (DocType, DocId),
    DocumentModelError,
>)
    requires
        path@ == rel_path(pieces_view(parts@)),
    ensures
        match r {
            Ok((t, id)) => declared_id(pieces_view(parts@), disposition@) == Ok::<
                (DocType, SpecDocId),
                ModelErrorView,
            >((t, id@)),
            Err(e) => declared_id(pieces_view(parts@), disposition@) == Err::<
                (DocType, SpecDocId),
                ModelErrorView,
            >(e@),
        },
{
    let n = parts.len();
    match disposition {
        PathDisposition::Prd => {
            if n == 0 {
                return Err(
                    DocumentModelError::InvalidFilename {
                        path: owned(path),
                        doc_type: owned("unknown"),
                    },
                );
            }
            let stem = file_stem(parts[n - 1].as_str());
            let id = parse_prd_id(path, stem.as_str())?;
            Ok((DocType::Prd, id))
        },
        PathDisposition::Design => {
            if n == 0 {
                return Err(
                    DocumentModelError::InvalidFilename {
                        path: owned(path),
                        doc_type: owned("unknown"),
                    },
                );
            }
            let stem = file_stem(parts[n - 1].as_str());
            let id = parse_design_id(path, stem.as_str())?;
            let t = match &id {
                DocId::DesignPatch { .. } => DocType::DesignPatch,
                _ => DocType::DesignDoc,
            };
            Ok((t, id))
        },
        PathDisposition::ExecPlan { exec_slug } => Ok(
            (DocType::ExecPlan, DocId::ExecPlan(exec_slug)),
        ),
        PathDisposition::Task { exec_slug } => {
            if n == 0 {
                return Err(
                    DocumentModelError::InvalidFilename {
                        path: owned(path),
                        doc_type: owned("unknown"),
                    },
                );
            }
            let stem = file_stem(parts[n - 1].as_str());
            let id = parse_task_id(path, stem.as_str(), exec_slug.as_str())?;
            Ok((DocType::TaskSpec, id))
        },
        PathDisposition::FixedManaged(t) => {
            if t == DocType::ProjectSpec {
                Ok((t, DocId::ProjectSpec))
            } else if t == DocType::OrgSpec {
                Ok((t, DocId::OrgSpec))
            } else {
                Err(DocumentModelError::InvalidManagedPath { path: owned(path) })
            }
        },
        PathDisposition::GuidelineManaged(g) => Ok((DocType::Guideline, DocId::Guideline(g))),
        PathDisposition::InvalidManaged(reason) => Err(
            DocumentModelError::InvalidField {
                path: owned(path),
                field: owned("path"),
                message: reason,
            },
        ),
        PathDisposition::Ignored => Err(
            DocumentModelError::InvalidManagedPath { path: owned(path) },
        ),
    }
}

fn trim_title(t: &Option<String>) -> (r: Option<String>)
    ensures
        r.deep_view() == trimmed_title(t.deep_view()),
{
    match t {
        Some(x) => Some(trim_str(x.as_str())),
        None => None,
    }
}

/// Builds the document of a managed file from its path components, absolute path,
/// disposition, contents and decoded frontmatter.
pub fn load_document(
    parts: &Vec<String>,
    absolute: String,
    disposition: PathDisposition,
    raw: String,
    frontmatter: Frontmatter,
) -> (r: Result<Document, DocumentModelError>)
    ensures
        match r {
            Ok(d) => document_from(
                pieces_view(parts@),
                absolute@,
                disposition@,
                raw@,
                frontmatter@,
            ) == Ok::<DocumentView, ModelErrorView>(d@),
            Err(e) => document_from(
                pieces_view(parts@),
                absolute@,
                disposition@,
                raw@,
                frontmatter@,
            ) == Err::<DocumentView, ModelErrorView>(e@),
        },
{
    let path = join_strings(parts, "/");
    let parent = if parts.len() == 0 {
        String::new()
    } else {
        let mut head: Vec<String> = Vec::new();
        let mut i: usize = 0;
        while i + 1 < parts.len()
            invariant
                i + 1 <= parts.len(),
                head@.len() == i,
                forall|j: int| 0 <= j < i ==> #[trigger] head@[j]@ == parts@[j]@,
            decreases parts.len() - i,
        {
            head.push(parts[i].clone());
            i = i + 1;
        }
        assert(pieces_view(head@) =~= pieces_view(parts@).take(i as int));
        assert(pieces_view(parts@).take(i as int) =~= pieces_view(parts@).drop_last());
        join_strings(&head, "/")
    };
    let (doc_type, id) = declared_id_exec(parts, path.as_str(), disposition)?;
    validate_frontmatter(path.as_str(), doc_type, &id, &frontmatter)?;
    let status = parse_status(path.as_str(), doc_type, &frontmatter)?;
    validate_directory(parent.as_str(), path.as_str(), doc_type, &id, status)?;
    let title = trim_title(&frontmatter.title);
    Ok(Document { id, doc_type, status, title, path: absolute, frontmatter, raw })
}

/// What the scan found in a markdown file.
#[derive(Debug)]
pub enum FileContent {
    /// The file could not be read.
    Unreadable,
    /// The file's contents, and the decoding of its frontmatter block's YAML
    /// (or the decoder's message).
    Read { raw: String, yaml: Result<RawFrontmatter, String> },
}

/// One markdown file found by a repository scan.
#[derive(Debug)]
pub struct ScannedFile {
    /// Absolute path of the file.
    pub absolute: String,
    /// Components of the path relative to the repository root.
    pub relative: Vec<String>,
    /// What reading the file gave.
    pub content: FileContent,
}

pub enum ContentView {
    Unreadable,
    Read { raw: Seq<char>, yaml: Result<FrontmatterView, Seq<char>> },
}

pub struct ScanView {
    pub absolute: Seq<char>,
    pub relative: Seq<Seq<char>>,
    pub content: ContentView,
}

impl View for ScannedFile {
    type V = ScanView;

    open spec fn view(&self) -> ScanView {
        ScanView {
            absolute: self.absolute@,
            relative: pieces_view(self.relative@),
            content: match &self.content {
                FileContent::Unreadable => ContentView::Unreadable,
                FileContent::Read { raw, yaml } => ContentView::Read {
                    raw: raw@,
                    yaml: match yaml {
                        Ok(fm) => Ok(frontmatter_spec(*fm)),
                        Err(m) => Err(m@),
                    },
                },
            },
        }
    }
}

/// What a managed file contributes: its document, or the reason it is invalid.
pub open spec fn managed_outcome(f: ScanView, disp: DispositionView) -> Result<
    DocumentView,
    Seq<char>,
> {
    let path = rel_path(f.relative);
    match f.content {
        ContentView::Unreadable => Err("reading managed document "@ + f.absolute),
        ContentView::Read { raw, yaml } => match frontmatter_block(raw) {
            None => Err(error_text(ModelErrorView::MissingFrontmatter { path })),
            Some(_) => match yaml {
                Err(m) => Err(error_text(ModelErrorView::InvalidFrontmatter { path, message: m })),
                Ok(fm) => match document_from(f.relative, f.absolute, disp, raw, fm) {
                    Ok(d) => Ok(d),
                    Err(e) => Err(error_text(e)),
                },
            },
        },
    }
}

/// The message recorded when a second file declares an id already in the index.
pub open spec fn duplicate_message(id: SpecDocId, existing: Seq<char>) -> Seq<char> {
    "duplicate canonical id "@ + id_string(id) + " already used by "@ + existing
}

/// The index after adding one scanned file.
pub open spec fn index_step(idx: IndexView, f: ScanView) -> IndexView {
    match classify(f.relative) {
        DispositionView::Ignored => IndexView {
            ignored_paths: idx.ignored_paths.push(f.absolute),
            ..idx
        },
        DispositionView::InvalidManaged(reason) => IndexView {
            invalid_entries: idx.invalid_entries.push(
                InvalidEntryView { path: f.absolute, reason },
            ),
            ..idx
        },
        disp => match managed_outcome(f, disp) {
            Err(reason) => IndexView {
                invalid_entries: idx.invalid_entries.push(
                    InvalidEntryView { path: f.absolute, reason },
                ),
                ..idx
            },
            Ok(d) => match lookup(idx.documents, d.id) {
                Some(existing) => IndexView {
                    invalid_entries: idx.invalid_entries.push(
                        InvalidEntryView {
                            path: d.path,
                            reason: duplicate_message(d.id, existing.path),
                        },
                    ),
                    ..idx
                },
                None => IndexView { documents: sorted_insert(idx.documents, d), ..idx },
            },
        },
    }
}

/// The index of a repository scan: files are added in scan order.
pub open spec fn index_of(repo_root: Seq<char>, files: Seq<ScanView>) -> IndexView
    decreases files.len(),
{
    if files.len() == 0 {
        IndexView {
            repo_root,
            documents: Seq::empty(),
            invalid_entries: Seq::empty(),
            ignored_paths: Seq::empty(),
        }
    } else {
        index_step(index_of(repo_root, files.drop_last()), files.last())
    }
}

pub open spec fn scans_view(files: Seq<ScannedFile>) -> Seq<ScanView> {
    files.map_values(|f: ScannedFile| f@)
}

/// Adds one scanned file to the index.
pub fn add_scanned_file(index: &mut DocumentIndex, file: ScannedFile)
    ensures
        final(index)@ == index_step(old(index)@, file@),
{
    let ghost f = file@;
    let disposition = classify_path(&file.relative);
    match disposition {
        PathDisposition::Ignored => {
            index.ignored_paths.push(file.absolute);
            assert(index@.ignored_paths =~= old(index)@.ignored_paths.push(f.absolute));
            return;
        },
        PathDisposition::InvalidManaged(reason) => {
            let ghost before = entries_view(index.invalid_entries@);
            index.invalid_entries.push(InvalidManagedEntry { path: file.absolute, reason });
            assert(entries_view(index.invalid_entries@) =~= before.push(
                InvalidEntryView { path: f.absolute, reason: reason@ },
            ));
            return;
        },
        _ => {},
    }
    let ghost disp = disposition@;
    let path = join_strings(&file.relative, "/");
    let outcome: Result<Document, String> = match file.content {
        FileContent::Unreadable => Err(concat2("reading managed document ", file.absolute.as_str())),
        FileContent::Read { raw, yaml } => {
            match extract_frontmatter_block(path.as_str(), raw.as_str()) {
                Err(e) => Err(e.message()),
                Ok(_) => match yaml {
                    Err(m) => {
                        let e = DocumentModelError::InvalidFrontmatter { path: owned(path.as_str()), message: m };
                        Err(e.message())
                    },
                    Ok(raw_fm) => {
                        let fm = frontmatter_from_raw(raw_fm);
                        match load_document(&file.relative, file.absolute.clone(), disposition, raw, fm) {
                            Ok(d) => Ok(d),
                            Err(e) => Err(e.message()),
                        }
                    },
                },
            }
        },
    };
    match outcome {
        Err(reason) => {
            let ghost before = entries_view(index.invalid_entries@);
            index.invalid_entries.push(InvalidManagedEntry { path: file.absolute, reason });
            assert(entries_view(index.invalid_entries@) =~= before.push(
                InvalidEntryView { path: f.absolute, reason: reason@ },
            ));
        },
        Ok(document) => {
            let existing_path: Option<String> = match index.documents.get(&document.id) {
                Some(existing) => Some(existing.path.clone()),
                None => None,
            };
            match existing_path {
                Some(p) => {
                    let id = document.id.as_string();
                    let mut reason = concat3("duplicate canonical id ", id.as_str(), " already used by ");
                    append(&mut reason, p.as_str());
                    let ghost before = entries_view(index.invalid_entries@);
                    index.invalid_entries.push(InvalidManagedEntry { path: document.path, reason });
                    assert(entries_view(index.invalid_entries@) =~= before.push(
                        InvalidEntryView { path: document@.path, reason: reason@ },
                    ));
                },
                None => {
                    index.documents.insert(document);
                },
            }
        },
    }
}

/// Builds the index of a repository from the markdown files of its scan, in scan order.
pub fn build_index(repo_root: String, files: Vec<ScannedFile>) -> (r: DocumentIndex)
    ensures
        r@ == index_of(repo_root@, scans_view(files@)),
        index_laws(repo_root@, scans_view(files@), r@),
{
    proof {
        lemma_index_laws(repo_root@, scans_view(files@));
    }
    let ghost all = scans_view(files@);
    let mut index = DocumentIndex {
        repo_root,
        documents: DocumentMap::new(),
        invalid_entries: Vec::new(),
        ignored_paths: Vec::new(),
    };
    let ghost root = index@.repo_root;
    assert(all.take(0) =~= Seq::<ScanView>::empty());
    assert(entries_view(index.invalid_entries@) =~= Seq::<InvalidEntryView>::empty());
    assert(index.ignored_paths.deep_view() =~= Seq::<Seq<char>>::empty());
    assert(index@ =~= index_of(root, all.take(0)));
    let total = files.len();
    let mut rest = files;
    let ghost scanned = rest@;
    let mut taken: usize = 0;
    while rest.len() > 0
        invariant
            taken + rest@.len() == all.len(),
            all.len() == total,
            all == scans_view(scanned),
            rest@ == scanned.skip(taken as int),
            index@ == index_of(root, all.take(taken as int)),
        decreases rest@.len(),
    {
        let f = rest.remove(0);
        proof {
            assert(f@ == all[taken as int]);
            assert(all.take(taken + 1).drop_last() =~= all.take(taken as int));
            assert(rest@ =~= scanned.skip(taken + 1));
        }
        add_scanned_file(&mut index, f);
        taken = taken + 1;
    }
    assert(all.take(all.len() as int) =~= all);
    index
}

/// Whether some scanned file has the absolute path `p`.
pub open spec fn scanned(files: Seq<ScanView>, p: Seq<char>) -> bool {
    exists|j: int| 0 <= j < files.len() && #[trigger] files[j].absolute == p
}

/// What holds of the index of a scan: it keeps the root it was built for, its
/// documents are in strictly increasing canonical id order with no id twice,
/// each document's type is the type its id names,
/// every scanned file lands in exactly one of documents, invalid entries and
/// ignored paths, and each of those names a scanned file.
pub open spec fn index_laws(root: Seq<char>, files: Seq<ScanView>, idx: IndexView) -> bool {
    &&& idx.repo_root == root
    &&& ids_ascending(idx.documents)
    &&& unique_ids(idx.documents)
    &&& forall|i: int|
        0 <= i < idx.documents.len() ==> id_type((#[trigger] idx.documents[i]).id)
            == idx.documents[i].doc_type
    &&& idx.documents.len() + idx.invalid_entries.len() + idx.ignored_paths.len() == files.len()
    &&& forall|i: int| 0 <= i < idx.documents.len() ==> scanned(files, #[trigger] idx.documents[i].path)
    &&& forall|i: int|
        0 <= i < idx.invalid_entries.len() ==> scanned(files, #[trigger] idx.invalid_entries[i].path)
    &&& forall|i: int| 0 <= i < idx.ignored_paths.len() ==> scanned(files, #[trigger] idx.ignored_paths[i])
}

proof fn lemma_scanned_prefix(files: Seq<ScanView>, p: Seq<char>)
    requires
        files.len() > 0,
        scanned(files.drop_last(), p),
    ensures
        scanned(files, p),
{
    let j = choose|j: int| 0 <= j < files.drop_last().len() && #[trigger] files.drop_last()[j].absolute == p;
    assert(files[j] == files.drop_last()[j]);
}

/// Every index of a scan keeps its root, orders its documents by id, places each
/// scanned file in exactly one bucket, and names only scanned files.
pub proof fn lemma_index_laws(repo_root: Seq<char>, files: Seq<ScanView>)
    ensures
        index_laws(repo_root, files, index_of(repo_root, files)),
    decreases files.len(),
{
    lemma_index_documents_ordered(repo_root, files);
    if files.len() > 0 {
        let rest = files.drop_last();
        lemma_index_laws(repo_root, rest);
        let prev = index_of(repo_root, rest);
        let idx = index_of(repo_root, files);
        let f = files.last();
        let last = files.len() - 1;
        assert(files[last] == f);
        assert(scanned(files, f.absolute));
        assert forall|i: int| 0 <= i < prev.documents.len() implies scanned(
            files,
            #[trigger] prev.documents[i].path,
        ) by {
            lemma_scanned_prefix(files, prev.documents[i].path);
        }
        assert forall|i: int| 0 <= i < prev.invalid_entries.len() implies scanned(
            files,
            #[trigger] prev.invalid_entries[i].path,
        ) by {
            lemma_scanned_prefix(files, prev.invalid_entries[i].path);
        }
        assert forall|i: int| 0 <= i < prev.ignored_paths.len() implies scanned(
            files,
            #[trigger] prev.ignored_paths[i],
        ) by {
            lemma_scanned_prefix(files, prev.ignored_paths[i]);
        }
        let disp = classify(f.relative);
        if !(disp is Ignored) && !(disp is InvalidManaged) {
            if let Ok(d) = managed_outcome(f, disp) {
                assert(d.path == f.absolute);
                assert(id_type(d.id) == d.doc_type);
                if lookup(prev.documents, d.id) is None {
                    let k = lemma_sorted_insert_split(prev.documents, d);
                    let ds = idx.documents;
                    assert(ds == prev.documents.take(k) + seq![d] + prev.documents.skip(k));
                    assert forall|i: int| 0 <= i < ds.len() implies scanned(
                        files,
                        #[trigger] ds[i].path,
                    ) by {
                        if i < k {
                            assert(ds[i] == prev.documents[i]);
                        } else if i > k {
                            assert(ds[i] == prev.documents[i - 1]);
                        }
                    }
                    assert forall|i: int| 0 <= i < ds.len() implies id_type((#[trigger] ds[i]).id)
                        == ds[i].doc_type by {
                        if i < k {
                            assert(ds[i] == prev.documents[i]);
                        } else if i > k {
                            assert(ds[i] == prev.documents[i - 1]);
                        }
                    }
                }
            }
        }
    }
}

/// The documents of every index are kept in strictly increasing canonical id
/// order, so no id occurs twice.
pub proof fn lemma_index_documents_ordered(repo_root: Seq<char>, files: Seq<ScanView>)
    ensures
        ids_ascending(index_of(repo_root, files).documents),
        unique_ids(index_of(repo_root, files).documents),
    decreases files.len(),
{
    if files.len() > 0 {
        lemma_index_documents_ordered(repo_root, files.drop_last());
        let prev = index_of(repo_root, files.drop_last());
        let f = files.last();
        let disp = classify(f.relative);
        if !(disp is Ignored) && !(disp is InvalidManaged) {
            if let Ok(d) = managed_outcome(f, disp) {
                if lookup(prev.documents, d.id) is None {
                    lemma_doc_position(prev.documents, d.id);
                    lemma_sorted_insert_ascending(prev.documents, d);
                }
            }
        }
    }
    lemma_ascending_ids_are_unique(index_of(repo_root, files).documents);
}

} // verus!
