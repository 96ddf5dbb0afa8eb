use vstd::prelude::*;

use crate::keyed::unique_keys;
use crate::openapi::extensions::Extensions;

verus! {

/// Metadata about the described API.
#[derive(Debug)]
pub struct Info {
    pub title: String,
    pub description: Option<String>,
    pub terms_of_service: Option<String>,
    pub contact: Option<Contact>,
    pub license: Option<License>,
    pub version: String,
    pub extensions: Extensions,
}

/// Contact information for the exposed API.
#[derive(Debug)]
pub struct Contact {
    pub name: Option<String>,
    pub url: Option<String>,
    pub email: Option<String>,
    pub extensions: Extensions,
}

/// License information for the exposed API.
#[derive(Debug)]
pub struct License {
    pub name: String,
    pub url: Option<String>,
    pub extensions: Extensions,
}

impl Info {
    pub open spec fn well_formed(self) -> bool {
        &&& unique_keys(self.extensions@)
        &&& match self.contact {
            Option::Some(c) => c.well_formed(),
            Option::None => true,
        }
        &&& match self.license {
            Option::Some(l) => l.well_formed(),
            Option::None => true,
        }
    }

    pub open spec fn is_default(self) -> bool {
        &&& self.title@ == Seq::<char>::empty()
        &&& self.description is None
        &&& self.terms_of_service is None
        &&& self.contact is None
        &&& self.license is None
        &&& self.version@ == Seq::<char>::empty()
        &&& self.extensions@ == Seq::<(String, String)>::empty()
    }
}

impl Default for Info {
    fn default() -> (r: Self)
        ensures
            r.is_default(),
            r.well_formed(),
    {
        Info {
            title: String::new(),
            description: Option::None,
            terms_of_service: Option::None,
            contact: Option::None,
            license: Option::None,
            version: String::new(),
            extensions: Vec::new(),
        }
    }
}

impl Contact {
    pub open spec fn well_formed(self) -> bool {
        unique_keys(self.extensions@)
    }
}

impl License {
    pub open spec fn well_formed(self) -> bool {
        unique_keys(self.extensions@)
    }
}

} // verus!
