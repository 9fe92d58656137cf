use vstd::prelude::*;

verus! {

/// What generating the modules' trees counted.
#[derive(Debug, Clone, Copy, PartialEq, Eq, Structural)]
pub struct AstGenerationStats {
    pub total_lines: u32,
}

/// What the parsing workers share: the files already claimed for parsing,
/// and the lines parsed so far.
pub struct ParserCache {
    pub parsed_files: Vec<String>,
    pub total_lines: u32,
}

/// Whether `path` is among `files`.
pub open spec fn claimed(files: Seq<String>, path: Seq<char>) -> bool {
    exists|i: int| 0 <= i < files.len() && files[i]@ == path
}

impl ParserCache {
    pub fn new() -> (r: ParserCache)
        ensures
            r.parsed_files@.len() == 0,
            r.total_lines == 0,
    {
        ParserCache { parsed_files: Vec::new(), total_lines: 0 }
    }

    /// Claims `path` for parsing: true, and the path recorded, when no one
    /// claimed it before; false, and nothing changed, otherwise. Checking
    /// and recording in one step keeps a file from being parsed twice when
    /// two modules import it.
    pub fn claim(&mut self, path: String) -> (r: bool)
        ensures
            r == !claimed(old(self).parsed_files@, path@),
            r ==> final(self).parsed_files@ == old(self).parsed_files@.push(path),
            !r ==> final(self).parsed_files@ == old(self).parsed_files@,
            final(self).total_lines == old(self).total_lines,
    {
        let mut i: usize = 0;
        while i < self.parsed_files.len()
            invariant
                i <= self.parsed_files@.len(),
                self.parsed_files@ == old(self).parsed_files@,
                self.total_lines == old(self).total_lines,
                forall|j: int| 0 <= j < i ==> self.parsed_files@[j]@ != path@,
            decreases self.parsed_files@.len() - i,
        {
            if self.parsed_files[i] == path {
                return false;
            }
            i += 1;
        }
        self.parsed_files.push(path);
        true
    }

    /// Counts `lines` more parsed lines, stopping at the largest count.
    pub fn add_lines(&mut self, lines: u32)
        ensures
            final(self).total_lines as int == if old(self).total_lines + lines > u32::MAX {
                u32::MAX as int
            } else {
                old(self).total_lines + lines
            },
            final(self).parsed_files@ == old(self).parsed_files@,
    {
        if lines > u32::MAX - self.total_lines {
            self.total_lines = u32::MAX;
        } else {
            self.total_lines = self.total_lines + lines;
        }
    }

    pub fn stats(&self) -> (r: AstGenerationStats)
        ensures
            r.total_lines == self.total_lines,
    {
        AstGenerationStats { total_lines: self.total_lines }
    }
}

} // verus!
