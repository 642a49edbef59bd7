//! The records the catalog hands out.
use vstd::prelude::*;

verus! {

/// A photo of the catalog: its id, where its file is, and where a download of
/// it must be reported before the file is fetched.
#[derive(Debug, Clone)]
pub struct Photo {
    id: String,
    file_url: String,
    download_track_url: String,
}

/// A photo as character sequences.
pub struct PhotoView {
    pub id: Seq<char>,
    pub file_url: Seq<char>,
    pub download_track_url: Seq<char>,
}

impl View for Photo {
    type V = PhotoView;

    closed spec fn view(&self) -> PhotoView {
        PhotoView {
            id: self.id@,
            file_url: self.file_url@,
            download_track_url: self.download_track_url@,
        }
    }
}

impl Photo {
    pub fn new(id: String, file_url: String, download_track_url: String) -> (r: Photo)
        ensures
            r@.id == id@,
            r@.file_url == file_url@,
            r@.download_track_url == download_track_url@,
    {
        Photo { id, file_url, download_track_url }
    }

    pub fn id(&self) -> (r: &str)
        ensures
            r@ == self@.id,
    {
        self.id.as_str()
    }

    pub fn file_url(&self) -> (r: &str)
        ensures
            r@ == self@.file_url,
    {
        self.file_url.as_str()
    }

    pub fn download_track_url(&self) -> (r: &str)
        ensures
            r@ == self@.download_track_url,
    {
        self.download_track_url.as_str()
    }
}

/// A topic of the catalog, known by its id.
#[derive(Debug, Clone)]
pub struct Topic {
    id: String,
}

impl View for Topic {
    type V = Seq<char>;

    closed spec fn view(&self) -> Seq<char> {
        self.id@
    }
}

impl Topic {
    pub fn new(id: String) -> (r: Topic)
        ensures
            r@ == id@,
    {
        Topic { id }
    }

    pub fn id(&self) -> (r: &str)
        ensures
            r@ == self@,
    {
        self.id.as_str()
    }
}

} // verus!
