//! Full-text search functionality of text channel messages. The search
//! engine is an outside collaborator; this module holds the per-channel
//! index handle and the trusted contracts the channel actor relies on.

use tantivy::schema::document::Document;
use vstd::prelude::*;

verus! {

/// The search engine's own error type, carried opaquely inside the
/// library's error values.
#[verifier::external_type_specification]
#[verifier::external_body]
pub struct ExTantivyError(tantivy::TantivyError);

/// The search engine's error for an index directory that cannot be
/// opened, carried opaquely.
#[verifier::external_type_specification]
#[verifier::external_body]
pub struct ExOpenDirectoryError(tantivy::directory::error::OpenDirectoryError);

/// The search engine's schema type.
#[verifier::external_type_specification]
#[verifier::external_body]
pub struct ExSchema(tantivy::schema::Schema);

/// Why a channel's search index could not be opened.
#[derive(Debug)]
pub enum SearchOpenError {
    /// The index directory could not be opened.
    Directory(tantivy::directory::error::OpenDirectoryError),
    /// The index itself could not be opened or created.
    Index(tantivy::TantivyError),
}

/// Relies on tantivy's schema builder: the index schema for channel
/// messages — a seconds-precision indexed, stored and fast timestamp
/// field, an indexed and stored tokenized body field, and an indexed
/// fast numeric author field.
#[verifier::external_body]
pub fn text_search_schema() -> tantivy::schema::Schema {
    let mut schema_builder = tantivy::schema::Schema::builder();
    schema_builder.add_date_field(
        "timestamp",
        tantivy::schema::DateOptions::from(tantivy::schema::INDEXED)
            .set_stored()
            .set_fast()
            .set_precision(tantivy::schema::DateTimePrecision::Seconds),
    );
    schema_builder.add_text_field("content", tantivy::schema::TEXT | tantivy::schema::STORED);
    schema_builder.add_u64_field(
        "author",
        tantivy::schema::NumericOptions::from(tantivy::schema::INDEXED).set_fast(),
    );
    schema_builder.build()
}

/// One channel's full-text index: the index, its single writer — owned
/// exclusively by the channel's actor — and the three schema fields.
#[verifier::external_body]
pub struct SearchIndex {
    index: tantivy::Index,
    writer: tantivy::IndexWriter,
    field_timestamp: tantivy::schema::Field,
    field_content: tantivy::schema::Field,
    field_author: tantivy::schema::Field,
}

/// One indexed channel-message document.
pub struct DocModel {
    pub timestamp_ms: u64,
    pub content: Seq<char>,
    pub author: u64,
}

/// The documents handed to this index's writer, in order of addition.
/// Documents already on disk from an earlier run are not named: only
/// what this handle's writer was given.
pub uninterp spec fn index_docs(ix: SearchIndex) -> Seq<DocModel>;

impl SearchIndex {
    /// Relies on tantivy's `MmapDirectory::open`, `Index::open_or_create`
    /// and `Index::writer`: opens or creates the channel's index under
    /// `dir` — which must already exist — with the message schema, and
    /// takes its single writer. The fresh writer has been handed no
    /// documents yet.
    #[verifier::external_body]
    pub fn open_in_dir(dir: &str) -> (r: Result<SearchIndex, SearchOpenError>)
        ensures
            r matches Ok(ix) ==> index_docs(ix) == Seq::<DocModel>::empty(),
    {
        let schema = text_search_schema();
        let directory = tantivy::directory::MmapDirectory::open(dir).map_err(
            SearchOpenError::Directory,
        )?;
        let index = tantivy::Index::open_or_create(directory, schema.clone()).map_err(
            SearchOpenError::Index,
        )?;
        let writer = index.writer(50_000_000).map_err(SearchOpenError::Index)?;
        let field_timestamp = schema.get_field("timestamp").map_err(SearchOpenError::Index)?;
        let field_content = schema.get_field("content").map_err(SearchOpenError::Index)?;
        let field_author = schema.get_field("author").map_err(SearchOpenError::Index)?;
        Ok(SearchIndex { index, writer, field_timestamp, field_content, field_author })
    }

    /// Relies on tantivy's `Index::create_in_ram` and `Index::writer`: a
    /// fresh in-memory index with the message schema, its writer handed
    /// no documents yet.
    #[verifier::external_body]
    pub fn open_in_ram() -> (r: Result<SearchIndex, tantivy::TantivyError>)
        ensures
            r matches Ok(ix) ==> index_docs(ix) == Seq::<DocModel>::empty(),
    {
        let schema = text_search_schema();
        let index = tantivy::Index::create_in_ram(schema.clone());
        let writer = index.writer(50_000_000)?;
        let field_timestamp = schema.get_field("timestamp")?;
        let field_content = schema.get_field("content")?;
        let field_author = schema.get_field("author")?;
        Ok(SearchIndex { index, writer, field_timestamp, field_content, field_author })
    }

    /// Relies on tantivy's `TantivyDocument` field setters and
    /// `IndexWriter::add_document`: builds the document for one channel
    /// message — timestamp, body text, author — and queues it on the
    /// writer. On an error the writer took no document.
    #[verifier::external_body]
    pub fn add_message(&mut self, timestamp_ms: u64, content: &String, author: u64) -> (r: Result<
        (),
        tantivy::TantivyError,
    >)
        ensures
            r is Ok ==> index_docs(*final(self)) == index_docs(*old(self)).push(
                (DocModel { timestamp_ms, content: content@, author }),
            ),
            r is Err ==> index_docs(*final(self)) == index_docs(*old(self)),
    {
        let mut document = tantivy::TantivyDocument::default();
        document.add_date(
            self.field_timestamp,
            tantivy::DateTime::from_timestamp_millis(timestamp_ms as i64),
        );
        document.add_text(self.field_content, content.as_str());
        document.add_u64(self.field_author, author);
        self.writer.add_document(document).map(|_| ())
    }

    /// Relies on tantivy's `IndexWriter::commit`, `Index::reader` and
    /// `Searcher::num_docs`: commits the queued documents and counts the
    /// searchable ones. No contract: tests hold concrete counts against
    /// it.
    #[verifier::external_body]
    pub fn committed_doc_count(&mut self) -> Result<u64, tantivy::TantivyError> {
        self.writer.commit()?;
        let reader = self.index.reader()?;
        Ok(reader.searcher().num_docs())
    }
}

} // verus!
