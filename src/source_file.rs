use vstd::prelude::*;

verus! {

/// A file of the scanned tree: its path and, where it could be read as
/// UTF-8 text, its content.
pub struct SourceFile {
    pub path: String,
    /// `None` where the file could not be read or was not valid UTF-8.
    pub content: Option<String>,
}

impl SourceFile {
    pub fn new(path: String, content: Option<String>) -> (r: SourceFile)
        ensures
            r.path == path,
            r.content == content,
    {
        SourceFile { path, content }
    }

    /// A copy of this file.
    pub fn duplicate(&self) -> (r: SourceFile)
        ensures
            r == *self,
    {
        let content = match &self.content {
            Some(c) => Some(c.clone()),
            None => None,
        };
        SourceFile { path: self.path.clone(), content }
    }
}

} // verus!
