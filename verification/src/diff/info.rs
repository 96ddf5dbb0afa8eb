use vstd::prelude::*;

use crate::diff::common::opt_str_eq;
use crate::diff::common::OptionalStringDiff;
use crate::diff::common::StringDiff;
use crate::diff::extensions::extensions_differ;
use crate::diff::extensions::lemma_extensions_diff_changes;
use crate::diff::extensions::ExtensionsDiff;
use crate::openapi::info::Contact;
use crate::openapi::info::Info;
use crate::openapi::info::License;

verus! {

/// Two contact slots differ: one appeared or left, or a kept contact's
/// fields or extensions differ.
pub open spec fn contacts_differ(x: Option<Contact>, y: Option<Contact>) -> bool {
    match (x, y) {
        (Option::None, Option::None) => false,
        (Option::Some(a), Option::Some(b)) => {
            ||| !opt_str_eq(a.name, b.name)
            ||| !opt_str_eq(a.url, b.url)
            ||| !opt_str_eq(a.email, b.email)
            ||| extensions_differ(a.extensions@, b.extensions@)
        },
        _ => true,
    }
}

/// Two license slots differ: one appeared or left, or a kept license's
/// fields or extensions differ.
pub open spec fn licenses_differ(x: Option<License>, y: Option<License>) -> bool {
    match (x, y) {
        (Option::None, Option::None) => false,
        (Option::Some(a), Option::Some(b)) => {
            ||| a.name@ != b.name@
            ||| !opt_str_eq(a.url, b.url)
            ||| extensions_differ(a.extensions@, b.extensions@)
        },
        _ => true,
    }
}

/// The API metadata of the two documents differs somewhere.
pub open spec fn info_differs(a: Info, b: Info) -> bool {
    ||| a.title@ != b.title@
    ||| !opt_str_eq(a.description, b.description)
    ||| !opt_str_eq(a.terms_of_service, b.terms_of_service)
    ||| a.version@ != b.version@
    ||| contacts_differ(a.contact, b.contact)
    ||| licenses_differ(a.license, b.license)
    ||| extensions_differ(a.extensions@, b.extensions@)
}

/// The change of the contact slot: appeared, left, or kept with changed
/// fields.
#[derive(Debug)]
pub struct ContactDiff {
    pub added: Option<Contact>,
    pub removed: Option<Contact>,
    pub name: Option<OptionalStringDiff>,
    pub url: Option<OptionalStringDiff>,
    pub email: Option<OptionalStringDiff>,
    pub extensions: Option<ExtensionsDiff>,
}

impl ContactDiff {
    pub open spec fn is_diff_of(self, x: Option<Contact>, y: Option<Contact>) -> bool {
        match (x, y) {
            (Option::None, Option::None) => self.added is None && self.removed is None && self.name
                is None && self.url is None && self.email is None && self.extensions is None,
            (Option::Some(c), Option::None) => self.added is None && self.removed == Option::Some(
                c,
            ) && self.name is None && self.url is None && self.email is None && self.extensions
                is None,
            (Option::None, Option::Some(c)) => self.added == Option::Some(c) && self.removed
                is None && self.name is None && self.url is None && self.email is None
                && self.extensions is None,
            (Option::Some(a), Option::Some(b)) => {
                &&& self.added is None
                &&& self.removed is None
                &&& self.name == OptionalStringDiff::spec_from_strings(a.name, b.name)
                &&& self.url == OptionalStringDiff::spec_from_strings(a.url, b.url)
                &&& self.email == OptionalStringDiff::spec_from_strings(a.email, b.email)
                &&& (self.extensions is Some <==> extensions_differ(a.extensions@, b.extensions@))
                &&& match self.extensions {
                    Option::Some(e) => e.is_diff_of(a.extensions@, b.extensions@),
                    Option::None => true,
                }
            },
        }
    }

    pub open spec fn spec_has_changes(self) -> bool {
        self.added is Some || self.removed is Some || self.name is Some || self.url is Some
            || self.email is Some || self.extensions is Some
    }

    pub fn has_changes(&self) -> (r: bool)
        ensures
            r == self.spec_has_changes(),
    {
        self.added.is_some() || self.removed.is_some() || self.name.is_some()
            || self.url.is_some() || self.email.is_some() || self.extensions.is_some()
    }

    /// Compares the contact slots of two documents.
    pub fn from_contacts(base: Option<Contact>, head: Option<Contact>) -> (r: Self)
        requires
            (base is Some ==> base.unwrap().well_formed()),
            (head is Some ==> head.unwrap().well_formed()),
        ensures
            r.is_diff_of(base, head),
            r.spec_has_changes() == contacts_differ(base, head),
    {
        match (base, head) {
            (Option::None, Option::None) => ContactDiff {
                added: Option::None,
                removed: Option::None,
                name: Option::None,
                url: Option::None,
                email: Option::None,
                extensions: Option::None,
            },
            (Option::Some(c), Option::None) => ContactDiff {
                added: Option::None,
                removed: Option::Some(c),
                name: Option::None,
                url: Option::None,
                email: Option::None,
                extensions: Option::None,
            },
            (Option::None, Option::Some(c)) => ContactDiff {
                added: Option::Some(c),
                removed: Option::None,
                name: Option::None,
                url: Option::None,
                email: Option::None,
                extensions: Option::None,
            },
            (Option::Some(a), Option::Some(b)) => {
                let ed = ExtensionsDiff::from_extensions(&a.extensions, &b.extensions);
                let keep = ed.has_changes();
                proof {
                    lemma_extensions_diff_changes(ed, a.extensions@, b.extensions@);
                }
                ContactDiff {
                    added: Option::None,
                    removed: Option::None,
                    name: OptionalStringDiff::from_strings(&a.name, &b.name),
                    url: OptionalStringDiff::from_strings(&a.url, &b.url),
                    email: OptionalStringDiff::from_strings(&a.email, &b.email),
                    extensions: if keep {
                        Option::Some(ed)
                    } else {
                        Option::None
                    },
                }
            },
        }
    }
}

/// The change of the license slot: appeared, left, or kept with changed
/// fields.
#[derive(Debug)]
pub struct LicenseDiff {
    pub added: Option<License>,
    pub removed: Option<License>,
    pub name: Option<StringDiff>,
    pub url: Option<OptionalStringDiff>,
    pub extensions: Option<ExtensionsDiff>,
}

impl LicenseDiff {
    pub open spec fn is_diff_of(self, x: Option<License>, y: Option<License>) -> bool {
        match (x, y) {
            (Option::None, Option::None) => self.added is None && self.removed is None && self.name
                is None && self.url is None && self.extensions is None,
            (Option::Some(c), Option::None) => self.added is None && self.removed == Option::Some(
                c,
            ) && self.name is None && self.url is None && self.extensions is None,
            (Option::None, Option::Some(c)) => self.added == Option::Some(c) && self.removed
                is None && self.name is None && self.url is None && self.extensions is None,
            (Option::Some(a), Option::Some(b)) => {
                &&& self.added is None
                &&& self.removed is None
                &&& self.name == StringDiff::spec_from_strings(a.name, b.name)
                &&& self.url == OptionalStringDiff::spec_from_strings(a.url, b.url)
                &&& (self.extensions is Some <==> extensions_differ(a.extensions@, b.extensions@))
                &&& match self.extensions {
                    Option::Some(e) => e.is_diff_of(a.extensions@, b.extensions@),
                    Option::None => true,
                }
            },
        }
    }

    pub open spec fn spec_has_changes(self) -> bool {
        self.added is Some || self.removed is Some || self.name is Some || self.url is Some
            || self.extensions is Some
    }

    pub fn has_changes(&self) -> (r: bool)
        ensures
            r == self.spec_has_changes(),
    {
        self.added.is_some() || self.removed.is_some() || self.name.is_some()
            || self.url.is_some() || self.extensions.is_some()
    }

    /// Compares the license slots of two documents.
    pub fn from_licences(base: Option<License>, head: Option<License>) -> (r: Self)
        requires
            (base is Some ==> base.unwrap().well_formed()),
            (head is Some ==> head.unwrap().well_formed()),
        ensures
            r.is_diff_of(base, head),
            r.spec_has_changes() == licenses_differ(base, head),
    {
        match (base, head) {
            (Option::None, Option::None) => LicenseDiff {
                added: Option::None,
                removed: Option::None,
                name: Option::None,
                url: Option::None,
                extensions: Option::None,
            },
            (Option::Some(c), Option::None) => LicenseDiff {
                added: Option::None,
                removed: Option::Some(c),
                name: Option::None,
                url: Option::None,
                extensions: Option::None,
            },
            (Option::None, Option::Some(c)) => LicenseDiff {
                added: Option::Some(c),
                removed: Option::None,
                name: Option::None,
                url: Option::None,
                extensions: Option::None,
            },
            (Option::Some(a), Option::Some(b)) => {
                let ed = ExtensionsDiff::from_extensions(&a.extensions, &b.extensions);
                let keep = ed.has_changes();
                proof {
                    lemma_extensions_diff_changes(ed, a.extensions@, b.extensions@);
                }
                let name_diff = StringDiff::from_strings(a.name, b.name);
                LicenseDiff {
                    added: Option::None,
                    removed: Option::None,
                    name: name_diff,
                    url: OptionalStringDiff::from_strings(&a.url, &b.url),
                    extensions: if keep {
                        Option::Some(ed)
                    } else {
                        Option::None
                    },
                }
            },
        }
    }
}

/// The change of the API metadata: scalar fields, contact, license and
/// extensions.
#[derive(Debug)]
pub struct InfoDiff {
    pub title: Option<StringDiff>,
    pub description: Option<OptionalStringDiff>,
    pub terms_of_service: Option<OptionalStringDiff>,
    pub contact: Option<ContactDiff>,
    pub license: Option<LicenseDiff>,
    pub version: Option<StringDiff>,
    pub extensions: Option<ExtensionsDiff>,
}

impl InfoDiff {
    pub open spec fn is_diff_of(self, a: Info, b: Info) -> bool {
        &&& self.title == StringDiff::spec_from_strings(a.title, b.title)
        &&& self.description == OptionalStringDiff::spec_from_strings(a.description, b.description)
        &&& self.terms_of_service == OptionalStringDiff::spec_from_strings(
            a.terms_of_service,
            b.terms_of_service,
        )
        &&& self.version == StringDiff::spec_from_strings(a.version, b.version)
        &&& (self.contact is Some <==> contacts_differ(a.contact, b.contact))
        &&& match self.contact {
            Option::Some(c) => c.is_diff_of(a.contact, b.contact),
            Option::None => true,
        }
        &&& (self.license is Some <==> licenses_differ(a.license, b.license))
        &&& match self.license {
            Option::Some(l) => l.is_diff_of(a.license, b.license),
            Option::None => true,
        }
        &&& (self.extensions is Some <==> extensions_differ(a.extensions@, b.extensions@))
        &&& match self.extensions {
            Option::Some(e) => e.is_diff_of(a.extensions@, b.extensions@),
            Option::None => true,
        }
    }

    pub open spec fn spec_has_changes(self) -> bool {
        self.title is Some || self.description is Some || self.terms_of_service is Some
            || self.contact is Some || self.license is Some || self.version is Some
            || self.extensions is Some
    }

    pub fn has_changes(&self) -> (r: bool)
        ensures
            r == self.spec_has_changes(),
    {
        self.title.is_some() || self.description.is_some() || self.terms_of_service.is_some()
            || self.contact.is_some() || self.license.is_some() || self.version.is_some()
            || self.extensions.is_some()
    }

    /// Compares the API metadata of two documents.
    pub fn from_info(base: Info, head: Info) -> (r: Self)
        requires
            base.well_formed(),
            head.well_formed(),
        ensures
            r.is_diff_of(base, head),
            r.spec_has_changes() == info_differs(base, head),
    {
        let description = OptionalStringDiff::from_strings(&base.description, &head.description);
        let terms_of_service = OptionalStringDiff::from_strings(
            &base.terms_of_service,
            &head.terms_of_service,
        );
        let ed = ExtensionsDiff::from_extensions(&base.extensions, &head.extensions);
        let ext_keep = ed.has_changes();
        proof {
            lemma_extensions_diff_changes(ed, base.extensions@, head.extensions@);
        }

        let Info { title: at, contact: ac, license: al, version: av, .. } = base;
        let Info { title: bt, contact: bc, license: bl, version: bv, .. } = head;

        let title = StringDiff::from_strings(at, bt);
        let version = StringDiff::from_strings(av, bv);

        let cd = ContactDiff::from_contacts(ac, bc);
        let c_keep = cd.has_changes();
        let ld = LicenseDiff::from_licences(al, bl);
        let l_keep = ld.has_changes();

        InfoDiff {
            title,
            description,
            terms_of_service,
            contact: if c_keep {
                Option::Some(cd)
            } else {
                Option::None
            },
            license: if l_keep {
                Option::Some(ld)
            } else {
                Option::None
            },
            version,
            extensions: if ext_keep {
                Option::Some(ed)
            } else {
                Option::None
            },
        }
    }
}

} // verus!
