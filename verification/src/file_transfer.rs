//! Serving files from a node's working directory in fixed-size chunks.

use vstd::prelude::*;
use vstd::string::*;

use crate::storage::{chunk_views, split_whole_chunks, whole_chunks_of};

verus! {

/// Size of the chunks a file is sent in.
pub const FILE_CHUNK_SIZE: usize = 8192;

/// Serves the files of one working directory.
pub struct FileTransferServiceImpl {
    working_dir: String,
}

/// `File <name> not found`.
pub open spec fn missing_file_message(file_name: Seq<char>) -> Seq<char> {
    seq!['F', 'i', 'l', 'e', ' '] + file_name + seq![' ', 'n', 'o', 't', ' ', 'f', 'o', 'u', 'n', 'd']
}

impl FileTransferServiceImpl {
    /// The service for the files of `working_dir`.
    pub fn create(working_dir: String) -> (s: FileTransferServiceImpl)
        ensures
            s.dir() == working_dir@,
    {
        FileTransferServiceImpl { working_dir }
    }

    /// The working directory.
    pub closed spec fn dir(&self) -> Seq<char> {
        self.working_dir@
    }

    /// The working directory.
    pub fn working_dir(&self) -> (d: &String)
        ensures
            d@ == self.dir(),
    {
        &self.working_dir
    }

    /// The chunks a file with content `data` is sent in: whole chunks of
    /// [`FILE_CHUNK_SIZE`] bytes; a shorter tail is not sent.
    pub fn file_chunks(&self, data: &Vec<u8>) -> (r: Vec<Vec<u8>>)
        ensures
            chunk_views(r@) == whole_chunks_of(data@, FILE_CHUNK_SIZE as nat),
    {
        split_whole_chunks(data, FILE_CHUNK_SIZE)
    }

    /// The refusal for a file that cannot be opened.
    pub fn missing_file(&self, file_name: &str) -> (m: String)
        ensures
            m@ == missing_file_message(file_name@),
    {
        proof {
            reveal_strlit("File ");
            reveal_strlit(" not found");
        }
        let mut m = String::from_str("File ");
        m.append(file_name);
        m.append(" not found");
        assert(m@ =~= missing_file_message(file_name@));
        m
    }
}

} // verus!
