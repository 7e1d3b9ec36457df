//! File records and the requests they are made from.

use vstd::prelude::*;

use crate::error::StoreError;

verus! {

/// What a caller sends to have a file recorded.
#[derive(Debug, PartialEq, Eq)]
pub struct CreateFileRequest {
    pub directory_path: String,
    pub filename: String,
    pub file_type: String,
    /// Byte count as it arrived; a negative count is refused.
    pub size: i64,
    pub checksum: String,
}

/// A request as a mathematical value.
pub struct RequestView {
    pub directory_path: Seq<char>,
    pub filename: Seq<char>,
    pub file_type: Seq<char>,
    pub size: int,
    pub checksum: Seq<char>,
}

impl View for CreateFileRequest {
    type V = RequestView;

    open spec fn view(&self) -> RequestView {
        RequestView {
            directory_path: self.directory_path@,
            filename: self.filename@,
            file_type: self.file_type@,
            size: self.size as int,
            checksum: self.checksum@,
        }
    }
}

/// One row of file metadata. Timestamps count seconds since the Unix epoch.
#[derive(Debug, PartialEq, Eq)]
pub struct FileRecord {
    pub id: String,
    pub directory_path: String,
    pub filename: String,
    pub file_type: String,
    pub size: u64,
    pub checksum: String,
    pub created_at: u64,
    pub updated_at: u64,
}

/// A record as a mathematical value.
pub struct RecordView {
    pub id: Seq<char>,
    pub directory_path: Seq<char>,
    pub filename: Seq<char>,
    pub file_type: Seq<char>,
    pub size: nat,
    pub checksum: Seq<char>,
    pub created_at: nat,
    pub updated_at: nat,
}

impl View for FileRecord {
    type V = RecordView;

    open spec fn view(&self) -> RecordView {
        RecordView {
            id: self.id@,
            directory_path: self.directory_path@,
            filename: self.filename@,
            file_type: self.file_type@,
            size: self.size as nat,
            checksum: self.checksum@,
            created_at: self.created_at as nat,
            updated_at: self.updated_at as nat,
        }
    }
}

/// Whether a request describes a record: its size is not negative.
/// The text fields are free-form and may hold anything, the empty text too.
pub open spec fn is_well_formed(request: RequestView) -> bool {
    request.size >= 0
}

/// The record that a well-formed request becomes under identifier `id` at
/// time `now`: the request's fields, and both timestamps equal to `now`.
pub open spec fn record_from(id: Seq<char>, request: RequestView, now: nat) -> RecordView {
    RecordView {
        id,
        directory_path: request.directory_path,
        filename: request.filename,
        file_type: request.file_type,
        size: request.size as nat,
        checksum: request.checksum,
        created_at: now,
        updated_at: now,
    }
}

/// The fixture row that every initialised table holds.
pub open spec fn seed_record() -> RecordView {
    RecordView {
        id: "00000000-0000-0000-0000-000000000000"@,
        directory_path: "fixtures"@,
        filename: "seed.txt"@,
        file_type: "text"@,
        size: 0,
        checksum: "00000000"@,
        created_at: 0,
        updated_at: 0,
    }
}

impl Clone for FileRecord {
    fn clone(&self) -> (copy: FileRecord)
        ensures
            copy == *self,
    {
        FileRecord {
            id: self.id.clone(),
            directory_path: self.directory_path.clone(),
            filename: self.filename.clone(),
            file_type: self.file_type.clone(),
            size: self.size,
            checksum: self.checksum.clone(),
            created_at: self.created_at,
            updated_at: self.updated_at,
        }
    }
}

impl FileRecord {
    /// Binds a request to an identifier and a creation time. A request
    /// with a negative size is malformed; every other request yields its
    /// record.
    pub fn from_request(id: String, request: CreateFileRequest, now: u64) -> (built: Result<
        FileRecord,
        StoreError,
    >)
        ensures
            is_well_formed(request@) ==> built is Ok && built->Ok_0@ == record_from(
                id@,
                request@,
                now as nat,
            ),
            !is_well_formed(request@) ==> built == Err::<FileRecord, StoreError>(
                StoreError::MalformedRequest,
            ),
    {
        if request.size < 0 {
            return Err(StoreError::MalformedRequest);
        }
        Ok(
            FileRecord {
                id,
                directory_path: request.directory_path,
                filename: request.filename,
                file_type: request.file_type,
                size: request.size as u64,
                checksum: request.checksum,
                created_at: now,
                updated_at: now,
            },
        )
    }

    /// The fixture row.
    pub fn seed() -> (row: FileRecord)
        ensures
            row@ == seed_record(),
    {
        FileRecord {
            id: "00000000-0000-0000-0000-000000000000".to_owned(),
            directory_path: "fixtures".to_owned(),
            filename: "seed.txt".to_owned(),
            file_type: "text".to_owned(),
            size: 0,
            checksum: "00000000".to_owned(),
            created_at: 0,
            updated_at: 0,
        }
    }
}

} // verus!
