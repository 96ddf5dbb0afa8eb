//! The engine's two global laws.
//!
//! Reflexivity: comparing a well-formed document with itself reports no
//! change anywhere — every slot of the resulting change-tree is absent.
//!
//! Add/remove symmetry: the paths reported as added when comparing base
//! against head are, key for key, the paths reported as removed when
//! comparing head against base.

use vstd::prelude::*;

use crate::diff::common::lemma_str_missing_members;
use crate::diff::common::str_lists_equal;
use crate::diff::content::content_differs;
use crate::diff::extensions::lemma_extensions_differ_irrefl;
use crate::diff::info::contacts_differ;
use crate::diff::info::info_differs;
use crate::diff::info::licenses_differ;
use crate::diff::media_type::media_type_differs;
use crate::diff::operations::operation_differs;
use crate::diff::parameter::parameter_differs;
use crate::diff::parameters::param_pair_differs;
use crate::diff::parameters::params_changed_list;
use crate::diff::parameters::params_differ;
use crate::diff::parameters::params_missing;
use crate::diff::parameters::pid_in;
use crate::diff::parameters::pid_index;
use crate::diff::parameters::pid_lookup;
use crate::diff::path_items::chg_cond;
use crate::diff::path_items::entry_keys;
use crate::diff::path_items::path_item_pair_differs;
use crate::diff::path_items::PathItemDiff;
use crate::diff::path_items::path_items_differ;
use crate::diff::paths::paths_differ;
use crate::diff::request_body::request_bodies_differ;
use crate::diff::response::response_differs;
use crate::diff::responses::responses_differ;
use crate::diff::schema::lemma_schema_differs_irrefl;
use crate::diff::servers::server_differs;
use crate::diff::servers::server_entries;
use crate::diff::servers::servers_differ;
use crate::diff::servers::servers_well_formed;
use crate::diff::Diff;
use crate::keyed::has_skey;
use crate::keyed::lemma_absent_members;
use crate::keyed::lemma_skey_index;
use crate::keyed::slookup;
use crate::keyed::unique_keys;
use crate::openapi::document::OpenAPI;
use crate::openapi::info::Contact;
use crate::openapi::info::Info;
use crate::openapi::info::License;
use crate::openapi::media_type::content_well_formed;
use crate::openapi::media_type::MediaType;
use crate::openapi::operation::Operation;
use crate::openapi::parameter::parameter_identity;
use crate::openapi::parameter::parameters_well_formed;
use crate::openapi::parameter::Parameter;
use crate::openapi::paths::PathItem;
use crate::openapi::reference::ReferenceOr;
use crate::openapi::request_body::RequestBody;
use crate::openapi::responses::Response;
use crate::openapi::server::Server;

verus! {

pub proof fn lemma_media_type_differs_irrefl(m: MediaType)
    requires
        m.well_formed(),
    ensures
        !media_type_differs(m, m),
{
    match m.schema {
        Option::Some(ReferenceOr::Item(s)) => {
            lemma_schema_differs_irrefl(s);
        },
        _ => {},
    }
}

pub proof fn lemma_content_differs_irrefl(c: Seq<(String, MediaType)>)
    requires
        content_well_formed(c),
    ensures
        !content_differs(c, c),
{
    assert forall|j: int| 0 <= j < c.len() implies has_skey(c, (#[trigger] c[j]).0@)
        && !media_type_differs(c[j].1, slookup(c, c[j].0@)) by {
        lemma_skey_index(c, c[j].0@, j);
        lemma_media_type_differs_irrefl(c[j].1);
    }
}

pub proof fn lemma_response_differs_irrefl(x: ReferenceOr<Response>)
    requires
        crate::diff::response::refor_response_well_formed(x),
    ensures
        !response_differs(x, x),
{
    match x {
        ReferenceOr::Item(a) => {
            lemma_content_differs_irrefl(a.content@);
        },
        ReferenceOr::Reference { .. } => {},
    }
}

pub proof fn lemma_responses_differ_irrefl(c: Seq<(String, ReferenceOr<Response>)>)
    requires
        unique_keys(c),
        forall|i: int|
            0 <= i < c.len() ==> crate::diff::response::refor_response_well_formed(
                (#[trigger] c[i]).1,
            ),
    ensures
        !responses_differ(c, c),
{
    assert forall|j: int| 0 <= j < c.len() implies has_skey(c, (#[trigger] c[j]).0@)
        && !response_differs(c[j].1, slookup(c, c[j].0@)) by {
        lemma_skey_index(c, c[j].0@, j);
        lemma_response_differs_irrefl(c[j].1);
    }
}

pub proof fn lemma_request_bodies_differ_irrefl(x: Option<ReferenceOr<RequestBody>>)
    requires
        crate::diff::request_body::opt_request_body_well_formed(x),
    ensures
        !request_bodies_differ(x, x),
{
    match x {
        Option::Some(ReferenceOr::Item(rb)) => {
            lemma_content_differs_irrefl(rb.content@);
        },
        _ => {},
    }
}

pub proof fn lemma_parameter_differs_irrefl(p: Parameter)
    requires
        p.well_formed(),
    ensures
        !parameter_differs(p, p),
{
    match p.data_of().format {
        crate::openapi::parameter::ParameterSchemaOrContent::Schema(ReferenceOr::Item(s)) => {
            lemma_schema_differs_irrefl(s);
        },
        _ => {},
    }
}

pub proof fn lemma_params_missing_members(
    base: Seq<ReferenceOr<Parameter>>,
    head: Seq<ReferenceOr<Parameter>>,
)
    ensures
        params_missing(base, head).len() == 0 <==> (forall|j: int|
            0 <= j < base.len() ==> pid_in(head, parameter_identity(#[trigger] base[j]))),
    decreases base.len(),
{
    if base.len() > 0 {
        let b0 = base.drop_last();
        lemma_params_missing_members(b0, head);
        assert(forall|j: int| 0 <= j < base.len() - 1 ==> #[trigger] b0[j] == base[j]);
        assert(base.last() == base[base.len() - 1]);
        if !pid_in(head, parameter_identity(base.last())) {
            assert(params_missing(base, head).len() > 0);
        } else {
            assert(params_missing(base, head) == params_missing(b0, head));
            if params_missing(base, head).len() == 0 {
                assert forall|j: int| 0 <= j < base.len() implies pid_in(
                    head,
                    parameter_identity(#[trigger] base[j]),
                ) by {
                    if j < base.len() - 1 {
                        assert(b0[j] == base[j]);
                    }
                }
            }
        }
    }
}

pub proof fn lemma_params_changed_members(
    base: Seq<ReferenceOr<Parameter>>,
    head: Seq<ReferenceOr<Parameter>>,
)
    ensures
        params_changed_list(base, head).len() == 0 <==> (forall|j: int|
            0 <= j < base.len() ==> !(pid_in(head, parameter_identity(#[trigger] base[j]))
                && param_pair_differs(
                base[j],
                pid_lookup(head, parameter_identity(base[j])),
            ))),
    decreases base.len(),
{
    if base.len() > 0 {
        let b0 = base.drop_last();
        lemma_params_changed_members(b0, head);
        assert(forall|j: int| 0 <= j < base.len() - 1 ==> #[trigger] b0[j] == base[j]);
        assert(base.last() == base[base.len() - 1]);
        let k = parameter_identity(base.last());
        if pid_in(head, k) && param_pair_differs(base.last(), pid_lookup(head, k)) {
            assert(params_changed_list(base, head).len() > 0);
        } else {
            assert(params_changed_list(base, head) == params_changed_list(b0, head));
            if params_changed_list(base, head).len() == 0 {
                assert forall|j: int| 0 <= j < base.len() implies !(pid_in(
                    head,
                    parameter_identity(#[trigger] base[j]),
                ) && param_pair_differs(
                    base[j],
                    pid_lookup(head, parameter_identity(base[j])),
                )) by {
                    if j < base.len() - 1 {
                        assert(b0[j] == base[j]);
                    }
                }
            }
        }
    }
}

pub proof fn lemma_params_differ_irrefl(s: Seq<ReferenceOr<Parameter>>)
    requires
        parameters_well_formed(s),
    ensures
        !params_differ(s, s),
{
    lemma_params_missing_members(s, s);
    lemma_params_changed_members(s, s);
    assert forall|j: int| 0 <= j < s.len() implies pid_in(
        s,
        parameter_identity(#[trigger] s[j]),
    ) && !param_pair_differs(s[j], pid_lookup(s, parameter_identity(s[j]))) by {
        let k = parameter_identity(s[j]);
        assert(pid_in(s, k));
        let i = pid_index(s, k);
        assert(0 <= i < s.len() && parameter_identity(s[i]) == k);
        if i != j {
            assert(parameter_identity(s[i]) != parameter_identity(s[j]));
        }
        assert(pid_lookup(s, k) == s[j]);
        match s[j] {
            ReferenceOr::Item(p) => {
                lemma_parameter_differs_irrefl(p);
            },
            ReferenceOr::Reference { .. } => {},
        }
    }
}


pub proof fn lemma_operation_differs_irrefl(o: Operation)
    requires
        o.well_formed(),
    ensures
        !operation_differs(o, o),
{
    lemma_str_missing_members(o.tags@, o.tags@);
    assert forall|j: int| 0 <= j < o.tags@.len() implies crate::diff::common::str_in(
        o.tags@,
        (#[trigger] o.tags@[j])@,
    ) by {}
    assert(str_lists_equal(o.tags@, o.tags@));
    lemma_params_differ_irrefl(o.parameters@);
    lemma_request_bodies_differ_irrefl(o.request_body);
    lemma_responses_differ_irrefl(o.responses.responses@);
}

pub proof fn lemma_path_items_differ_irrefl(a: PathItem)
    requires
        a.well_formed(),
    ensures
        !path_items_differ(a, a),
{
    assert forall|o: Option<Operation>|
        crate::openapi::paths::opt_op_well_formed(o) implies !(#[trigger] chg_cond(o, o)) by {
        match o {
            Option::Some(x) => {
                lemma_operation_differs_irrefl(x);
            },
            Option::None => {},
        }
    }
}

pub proof fn lemma_path_item_pair_differs_irrefl(x: ReferenceOr<PathItem>)
    requires
        crate::diff::path_items::refor_path_item_well_formed(x),
    ensures
        !path_item_pair_differs(x, x),
{
    match x {
        ReferenceOr::Item(a) => {
            lemma_path_items_differ_irrefl(a);
        },
        ReferenceOr::Reference { .. } => {},
    }
}

pub proof fn lemma_paths_differ_irrefl(c: Seq<(String, ReferenceOr<PathItem>)>)
    requires
        crate::diff::paths::paths_well_formed(c),
    ensures
        !paths_differ(c, c),
{
    assert forall|j: int| 0 <= j < c.len() implies has_skey(c, (#[trigger] c[j]).0@)
        && !path_item_pair_differs(c[j].1, slookup(c, c[j].0@)) by {
        lemma_skey_index(c, c[j].0@, j);
        lemma_path_item_pair_differs_irrefl(c[j].1);
    }
}

pub proof fn lemma_server_differs_irrefl(s: Server)
    requires
        s.well_formed(),
    ensures
        !server_differs(s, s),
{
    lemma_extensions_differ_irrefl(s.extensions@);
}

pub proof fn lemma_servers_differ_irrefl(s: Seq<Server>)
    requires
        servers_well_formed(s),
    ensures
        !servers_differ(s, s),
{
    let c = server_entries(s);
    assert(unique_keys(c));
    assert forall|j: int| 0 <= j < c.len() implies has_skey(c, (#[trigger] c[j]).0@)
        && !server_differs(c[j].1, slookup(c, c[j].0@)) by {
        lemma_skey_index(c, c[j].0@, j);
        assert(c[j].1 == s[j]);
        lemma_server_differs_irrefl(s[j]);
    }
}

pub proof fn lemma_contacts_differ_irrefl(x: Option<Contact>)
    requires
        (x is Some ==> x.unwrap().well_formed()),
    ensures
        !contacts_differ(x, x),
{
    match x {
        Option::Some(c) => {
            lemma_extensions_differ_irrefl(c.extensions@);
        },
        Option::None => {},
    }
}

pub proof fn lemma_licenses_differ_irrefl(x: Option<License>)
    requires
        (x is Some ==> x.unwrap().well_formed()),
    ensures
        !licenses_differ(x, x),
{
    match x {
        Option::Some(c) => {
            lemma_extensions_differ_irrefl(c.extensions@);
        },
        Option::None => {},
    }
}

pub proof fn lemma_info_differs_irrefl(a: Info)
    requires
        a.well_formed(),
    ensures
        !info_differs(a, a),
{
    lemma_contacts_differ_irrefl(a.contact);
    lemma_licenses_differ_irrefl(a.license);
    lemma_extensions_differ_irrefl(a.extensions@);
}

/// Reflexivity: a diff computed from one well-formed document against
/// itself reports no change — every top-level slot is absent.
pub proof fn lemma_diff_reflexive(a: OpenAPI, d: Diff)
    requires
        a.well_formed(),
        d.is_diff_of(a, a),
    ensures
        d.version is None,
        d.servers is None,
        d.paths is None,
        d.info is None,
{
    lemma_info_differs_irrefl(a.info);
    lemma_servers_differ_irrefl(a.servers@);
    lemma_paths_differ_irrefl(a.paths@);
}

/// The path keys a diff reports as added, absent slot read as none.
pub open spec fn added_path_keys(d: Diff) -> Seq<Seq<char>> {
    match d.paths {
        Option::Some(p) => entry_keys(p.added@),
        Option::None => Seq::empty(),
    }
}

/// The path keys a diff reports as removed, absent slot read as none.
pub open spec fn removed_path_keys(d: Diff) -> Seq<Seq<char>> {
    match d.paths {
        Option::Some(p) => entry_keys(p.removed@),
        Option::None => Seq::empty(),
    }
}

/// Add/remove symmetry: comparing base against head reports as added
/// exactly the path keys that comparing head against base reports as
/// removed.
pub proof fn lemma_add_remove_symmetry(a: OpenAPI, b: OpenAPI, d1: Diff, d2: Diff)
    requires
        a.well_formed(),
        b.well_formed(),
        d1.is_diff_of(a, b),
        d2.is_diff_of(b, a),
    ensures
        added_path_keys(d1) == removed_path_keys(d2),
{
    let away = crate::keyed::absent_entries(b.paths@, a.paths@);
    lemma_absent_members(b.paths@, a.paths@);
    match d1.paths {
        Option::Some(p1) => {
            assert(p1.added@ == away);
        },
        Option::None => {
            // No path change from a to b, so in particular no key of b is new.
            assert(!paths_differ(a.paths@, b.paths@));
            assert(forall|j: int|
                0 <= j < b.paths@.len() ==> has_skey(a.paths@, (#[trigger] b.paths@[j]).0@));
            assert(away.len() == 0);
        },
    }
    match d2.paths {
        Option::Some(p2) => {
            assert(p2.removed@ == away);
        },
        Option::None => {
            assert(!paths_differ(b.paths@, a.paths@));
            assert(forall|j: int|
                0 <= j < b.paths@.len() ==> has_skey(a.paths@, (#[trigger] b.paths@[j]).0@));
            assert(away.len() == 0);
        },
    }
    assert(added_path_keys(d1) =~= removed_path_keys(d2));
}


/// Rename stability: when two path items agree everywhere except that the
/// operation kept under one method carries another operationId, the diff
/// reports exactly one changed operation — never a removal/addition pair —
/// and that change is the operationId change.
pub proof fn lemma_operation_rename_stable(a: PathItem, b: PathItem, d: PathItemDiff)
    requires
        a.well_formed(),
        b.well_formed(),
        d.is_diff_of(ReferenceOr::Item(a), ReferenceOr::Item(b)),
        a.get is Some,
        b.get is Some,
        a.put == b.put,
        a.post == b.post,
        a.delete == b.delete,
        a.options == b.options,
        a.head == b.head,
        a.patch == b.patch,
        a.trace == b.trace,
        a.get.unwrap().tags == b.get.unwrap().tags,
        a.get.unwrap().summary == b.get.unwrap().summary,
        a.get.unwrap().description == b.get.unwrap().description,
        a.get.unwrap().parameters == b.get.unwrap().parameters,
        a.get.unwrap().request_body == b.get.unwrap().request_body,
        a.get.unwrap().responses == b.get.unwrap().responses,
        !crate::diff::common::opt_str_eq(a.get.unwrap().operation_id, b.get.unwrap().operation_id),
    ensures
        d.operations_added@.len() == 0,
        d.operations_removed@.len() == 0,
        d.operations_changed@.len() == 1,
        d.operations_changed@[0].0@ == "get"@,
        d.operations_changed@[0].1.operation_id
            == crate::diff::common::OptionalStringDiff::spec_from_strings(
            a.get.unwrap().operation_id,
            b.get.unwrap().operation_id,
        ),
{
    let oa = a.get.unwrap();
    let ob = b.get.unwrap();
    // The kept slots other than `get` do not differ.
    assert forall|o: Option<Operation>|
        crate::openapi::paths::opt_op_well_formed(o) implies !(#[trigger] chg_cond(o, o)) by {
        match o {
            Option::Some(x) => {
                lemma_operation_differs_irrefl(x);
            },
            Option::None => {},
        }
    }
    // The `get` slot differs only in the operationId, but it does differ.
    assert(operation_differs(oa, ob)) by {
        assert(!crate::diff::common::opt_str_eq(oa.operation_id, ob.operation_id));
    }
    assert(chg_cond(a.get, b.get));
    // No slot was added or removed, so both name lists are empty; exactly
    // the `get` slot is changed.
    assert(crate::diff::path_items::removed_method_names(a, b) =~= Seq::<Seq<char>>::empty());
    assert(crate::diff::path_items::added_method_names(a, b) =~= Seq::<Seq<char>>::empty());
    assert(crate::diff::path_items::changed_method_names(a, b) =~= seq!["get"@]);
    assert(entry_keys(d.operations_removed@).len() == d.operations_removed@.len());
    assert(entry_keys(d.operations_added@).len() == d.operations_added@.len());
    assert(entry_keys(d.operations_changed@).len() == d.operations_changed@.len());
    assert(d.operations_changed@[0].0@ == entry_keys(d.operations_changed@)[0]);
    // The one changed entry is the comparison of the two `get` operations,
    // whose only reported scalar change is the operationId.
    assert(crate::diff::path_items::method_slot(a, "get"@) == a.get);
    assert(crate::diff::path_items::method_slot(b, "get"@) == b.get);
    assert(d.operations_changed@[0].1.is_diff_of(oa, ob));
}

} // verus!
