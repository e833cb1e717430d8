//! The plain link-information record of the early command-line tool:
//! the same fields as the file descriptor, formatted the same way.
use vstd::prelude::*;

use crate::decimal::dec_i64;
use crate::file::{spec_full_link, spec_short_link};

verus! {

/// A resolved link, held as plain fields.
#[derive(Debug)]
pub struct Information {
    pub domain: String,
    pub id: String,
    pub key: i64,
    pub name: String,
    pub encoded_name: String,
}

impl Information {
    /// The direct download link with the generic trailing component.
    pub fn link(&self) -> (r: String)
        ensures
            r@ == spec_short_link(self.domain@, self.id@, self.key as int),
    {
        let mut s = String::new();
        s.append("https://");
        s.append(self.domain.as_str());
        s.append("/d/");
        s.append(self.id.as_str());
        s.append("/");
        let key_text = dec_i64(self.key);
        s.append(key_text.as_str());
        s.append("/DOWNLOAD");
        proof {
            assert(s@ =~= spec_short_link(self.domain@, self.id@, self.key as int));
        }
        s
    }

    /// The direct download link carrying the encoded filename.
    pub fn full_link(&self) -> (r: String)
        ensures
            r@ == spec_full_link(self.domain@, self.id@, self.key as int, self.encoded_name@),
    {
        let mut s = String::new();
        s.append("https://");
        s.append(self.domain.as_str());
        s.append("/d/");
        s.append(self.id.as_str());
        s.append("/");
        let key_text = dec_i64(self.key);
        s.append(key_text.as_str());
        s.append("/");
        s.append(self.encoded_name.as_str());
        proof {
            assert(s@ =~= spec_full_link(
                self.domain@,
                self.id@,
                self.key as int,
                self.encoded_name@,
            ));
        }
        s
    }
}

} // verus!
