//! What holds of a configuration that nothing is wrong with, and what is told of any
//! other.

#[allow(unused_imports)]
use crate::config::{said_if, AppConfigModel, AroundModel};
#[allow(unused_imports)]
use crate::domain::api_key::{ApiKeyDef, ApiKeyDefModel, ApiKeyRole};
#[allow(unused_imports)]
use crate::domain::credential::{Credential, CredentialModel};
#[allow(unused_imports)]
use crate::domain::endpoint::{OutputEndpoint, OutputEndpointModel};
#[allow(unused_imports)]
use crate::domain::enricher::{Enricher, EnricherModel};
#[allow(unused_imports)]
use crate::domain::project::{GitProject, GitProjectModel};
#[allow(unused_imports)]
use crate::domain::source::{ConnectorType, Source, SourceModel};
#[allow(unused_imports)]
use crate::domain::source_laws::lemma_in_filter_map;
#[allow(unused_imports)]
use crate::domain::view::{View, ViewMemberModel, ViewModel};
#[allow(unused_imports)]
use crate::strmap::{lemma_prefix_whole, lemma_sorted, sorted};
#[allow(unused_imports)]
use crate::text::{join_text, Text};
#[allow(unused_imports)]
use crate::validation::{
    broken_in, config_errors, endpoint_errors, endpoint_source_error, enricher_errors, errors_text, hosts_from_errors,
    key_endpoint_error, key_errors, key_source_error, known_hosts_errors, limit_errors, member_errors, members_errors,
    schedule_errors, source_credential_error, view_errors, EndpointRule, EnricherRule, HostsFromRule, KeyRule,
    KnownHostsRule, ProjectCredentialRule, RemoteRule, Rule, ScheduleRule, ScopeRule, ScriptProjectRule,
    SourceCredentialRule, SourceProjectRule, VaultRule, ViewRule,
};
use vstd::prelude::*;
#[allow(unused_imports)]
use vstd::view::View as _;

verus! {

proof fn lemma_nothing_flat<A, B>(s: Seq<A>, f: spec_fn(A) -> Seq<B>, i: int)
    requires
        0 <= i < s.len(),
        s.flat_map(f).len() == 0,
    ensures
        f(s[i]).len() == 0,
    decreases s.len(),
{
    let rest = s.drop_last();
    assert(s =~= rest.push(s.last()));
    rest.lemma_flat_map_push(f, s.last());
    if i < rest.len() {
        assert(rest[i] == s[i]);
        lemma_nothing_flat(rest, f, i);
    }
}

proof fn lemma_nothing_mapped<A, B>(s: Seq<A>, f: spec_fn(A) -> Option<B>, i: int)
    requires
        0 <= i < s.len(),
        s.filter_map(f).len() == 0,
    ensures
        f(s[i]) is None,
    decreases s.len(),
{
    let n = s.len() as int;
    assert(s.take(n) =~= s);
    s.lemma_filter_map_take_succ(f, n - 1);
    let rest = s.take(n - 1);
    if i < n - 1 {
        assert(rest[i] == s[i]);
        lemma_nothing_mapped(rest, f, i);
    }
}

proof fn lemma_not_broken<T: DeepView, R: Rule<T>>(
    c: AppConfigModel,
    around: AroundModel,
    section: Map<Text, T::V>,
    id: Text,
)
    requires
        section.dom().finite(),
        section.contains_key(id),
        broken_in::<T, R>(c, around, section).len() == 0,
    ensures
        R::broken(c, around, id, section[id]).len() == 0,
{
    let ids = sorted(section.dom());
    lemma_sorted(section.dom());
    assert(ids.to_set().contains(id));
    let i = choose|i: int| 0 <= i < ids.len() && ids[i] == id;
    lemma_nothing_flat(ids, |id: Text| R::broken(c, around, id, section[id]), i);
}

proof fn lemma_no_members_errors(
    c: AppConfigModel,
    id: Text,
    members: Seq<ViewMemberModel>,
    n: int,
    i: int,
)
    requires
        0 <= i < n,
        members_errors(c, id, members, n).len() == 0,
    ensures
        member_errors(c, id, members, i).len() == 0,
    decreases n,
{
    if i < n - 1 {
        lemma_no_members_errors(c, id, members, n - 1, i);
    }
}

/// In a configuration that nothing is wrong with, an enricher targets a source, takes
/// from a source or runs a script, and the project of the script is there.
pub proof fn law_an_enricher_has_what_it_names(c: AppConfigModel, around: AroundModel, id: Text)
    requires
        config_errors(c, around).len() == 0,
        c.enrichers.dom().finite(),
        c.enrichers.contains_key(id),
    ensures
        ({
            let x = c.enrichers[id];
            &&& c.sources.contains_key(x.target_id)
            &&& !c.views.contains_key(x.target_id)
            &&& x.source_id is Some || x.script_path is Some
            &&& x.source_id matches Some(source_id) ==> c.sources.contains_key(source_id)
            &&& x.project_id matches Some(project_id) ==> c.projects.contains_key(project_id)
            &&& x.schedule is Some ==> !(x.sync_interval_seconds matches Some(seconds) && seconds > 0)
        }),
{
    lemma_not_broken::<Enricher, EnricherRule>(c, around, c.enrichers, id);
    lemma_not_broken::<Enricher, ScriptProjectRule>(c, around, c.enrichers, id);
    lemma_not_broken::<Enricher, ScheduleRule>(c, around, c.enrichers, id);
}

/// In a configuration that nothing is wrong with, an endpoint reads sources, in exactly
/// one way, and limits what it returns to the hosts of one of them.
pub proof fn law_an_endpoint_has_what_it_names(c: AppConfigModel, around: AroundModel, id: Text)
    requires
        config_errors(c, around).len() == 0,
        c.endpoints.dom().finite(),
        c.endpoints.contains_key(id),
    ensures
        ({
            let x = c.endpoints[id];
            &&& forall|i: int|
                0 <= i < x.source_ids.len() ==> c.sources.contains_key(#[trigger] x.source_ids[i])
                    && !c.views.contains_key(x.source_ids[i])
            &&& x.output is Some != x.script_path is Some
            &&& x.output is Some ==> x.project_id is None && x.timeout_seconds is None
            &&& x.project_id matches Some(project_id) ==> c.projects.contains_key(project_id)
            &&& x.limit matches Some(limit) ==> limit.by_hosts_from_inventory matches Some(source_id)
                && x.source_ids.contains(source_id)
        }),
{
    lemma_not_broken::<OutputEndpoint, EndpointRule>(c, around, c.endpoints, id);
    lemma_not_broken::<OutputEndpoint, ScriptProjectRule>(c, around, c.endpoints, id);
    let x = c.endpoints[id];
    assert forall|i: int| 0 <= i < x.source_ids.len() implies c.sources.contains_key(#[trigger] x.source_ids[i])
        && !c.views.contains_key(x.source_ids[i]) by {
        lemma_nothing_mapped(x.source_ids, endpoint_source_error(c, id), i);
    }
}

/// In a configuration that nothing is wrong with, a view has members, each of which is
/// a source, none of them twice; and no view has the id of a source.
pub proof fn law_a_view_has_what_it_names(c: AppConfigModel, around: AroundModel, id: Text)
    requires
        config_errors(c, around).len() == 0,
        c.views.dom().finite(),
        c.views.contains_key(id),
    ensures
        ({
            let members = c.views[id].members;
            &&& !c.sources.contains_key(id)
            &&& members.len() > 0
            &&& forall|i: int|
                0 <= i < members.len() ==> c.sources.contains_key((#[trigger] members[i]).source)
                    && !c.views.contains_key(members[i].source) && c.sources.contains_key(members[i].owns.source)
            &&& forall|i: int, j: int|
                0 <= j < i < members.len() ==> (#[trigger] members[j]).source != (#[trigger] members[i]).source
        }),
{
    lemma_not_broken::<View, ViewRule>(c, around, c.views, id);
    let members = c.views[id].members;
    assert forall|i: int| 0 <= i < members.len() implies member_errors(c, id, members, i).len() == 0 by {
        lemma_no_members_errors(c, id, members, members.len() as int, i);
    }
    assert forall|i: int| 0 <= i < members.len() implies c.sources.contains_key((#[trigger] members[i]).source)
        && !c.views.contains_key(members[i].source) && c.sources.contains_key(members[i].owns.source) by {
        assert(member_errors(c, id, members, i).len() == 0);
    }
    assert forall|i: int, j: int| 0 <= j < i < members.len() implies (#[trigger] members[j]).source != (
    #[trigger] members[i]).source by {
        assert(member_errors(c, id, members, i).len() == 0);
    }
}

/// In a configuration that nothing is wrong with, the project and the credentials of a
/// source are there; and only an SSH source has its hosts from another source, which is
/// there too.
pub proof fn law_a_source_has_what_it_names(c: AppConfigModel, around: AroundModel, id: Text)
    requires
        config_errors(c, around).len() == 0,
        c.sources.dom().finite(),
        c.sources.contains_key(id),
    ensures
        ({
            let x = c.sources[id];
            &&& c.projects.contains_key(x.project_id)
            &&& forall|i: int|
                0 <= i < x.credential_ids.len() ==> c.credentials.contains_key(#[trigger] x.credential_ids[i])
            &&& x.hosts_from_source matches Some(from) ==> x.connector_type == ConnectorType::Ssh && from.source != id
                && c.sources.contains_key(from.source) && !x.config.contains_key("hosts"@)
            &&& x.schedule is Some ==> !(x.sync_interval_seconds matches Some(seconds) && seconds > 0)
        }),
{
    lemma_not_broken::<Source, SourceProjectRule>(c, around, c.sources, id);
    lemma_not_broken::<Source, SourceCredentialRule>(c, around, c.sources, id);
    lemma_not_broken::<Source, HostsFromRule>(c, around, c.sources, id);
    lemma_not_broken::<Source, ScheduleRule>(c, around, c.sources, id);
    let x = c.sources[id];
    assert forall|i: int| 0 <= i < x.credential_ids.len() implies c.credentials.contains_key(
        #[trigger] x.credential_ids[i],
    ) by {
        lemma_nothing_mapped(x.credential_ids, source_credential_error(c, id), i);
    }
}

/// In a configuration that nothing is wrong with, all that a restricted key opens is
/// there, and so is the credential of every project.
pub proof fn law_a_key_and_a_project_have_what_they_name(
    c: AppConfigModel,
    around: AroundModel,
    key: Text,
    project: Text,
)
    requires
        config_errors(c, around).len() == 0,
        c.api_keys.dom().finite(),
        c.projects.dom().finite(),
        c.api_keys.contains_key(key),
        c.projects.contains_key(project),
    ensures
        c.api_keys[key].role == ApiKeyRole::Restricted ==> {
            &&& forall|i: int|
                0 <= i < c.api_keys[key].sources.len() ==> c.sources.contains_key(
                    #[trigger] c.api_keys[key].sources[i],
                ) || c.views.contains_key(c.api_keys[key].sources[i])
            &&& forall|i: int|
                0 <= i < c.api_keys[key].endpoints.len() ==> c.endpoints.contains_key(
                    #[trigger] c.api_keys[key].endpoints[i],
                )
        },
        c.projects[project].credential_id matches Some(credential_id) ==> c.credentials.contains_key(credential_id),
{
    lemma_not_broken::<ApiKeyDef, KeyRule>(c, around, c.api_keys, key);
    lemma_not_broken::<GitProject, ProjectCredentialRule>(c, around, c.projects, project);
    let x = c.api_keys[key];
    if x.role == ApiKeyRole::Restricted {
        assert forall|i: int| 0 <= i < x.sources.len() implies c.sources.contains_key(#[trigger] x.sources[i])
            || c.views.contains_key(x.sources[i]) by {
            lemma_nothing_mapped(x.sources, key_source_error(c, key), i);
        }
        assert forall|i: int| 0 <= i < x.endpoints.len() implies c.endpoints.contains_key(
            #[trigger] x.endpoints[i],
        ) by {
            lemma_nothing_mapped(x.endpoints, key_endpoint_error(c, key), i);
        }
    }
}

proof fn lemma_either(a: Seq<Text>, b: Seq<Text>, error: Text)
    ensures
        (a + b).contains(error) <==> a.contains(error) || b.contains(error),
{
    let all = a + b;
    if a.contains(error) {
        let i = choose|i: int| 0 <= i < a.len() && a[i] == error;
        assert(all[i] == error);
    }
    if b.contains(error) {
        let i = choose|i: int| 0 <= i < b.len() && b[i] == error;
        assert(all[a.len() + i] == error);
    }
    if all.contains(error) {
        let i = choose|i: int| 0 <= i < all.len() && all[i] == error;
        if i < a.len() {
            assert(a[i] == error);
        } else {
            assert(b[i - a.len()] == error);
        }
    }
}

proof fn lemma_said(condition: bool, text: Text, error: Text)
    ensures
        said_if(condition, text).contains(error) <==> condition && error == text,
{
    if condition {
        assert(said_if(condition, text)[0] == text);
    }
}

proof fn lemma_in_flat<A>(s: Seq<A>, f: spec_fn(A) -> Seq<Text>, error: Text)
    ensures
        s.flat_map(f).contains(error) <==> exists|x: A| #[trigger] s.contains(x) && f(x).contains(error),
    decreases s.len(),
{
    if s.len() > 0 {
        let rest = s.drop_last();
        lemma_in_flat(rest, f, error);
        s.lemma_flat_map_take_append(f, s.len() - 1);
        assert(s.take(s.len() - 1) =~= rest);
        assert(s.take(s.len() as int) =~= s);
        lemma_either(rest.flat_map(f), f(s.last()), error);
        assert(s[s.len() - 1] == s.last());
        if exists|x: A| #[trigger] s.contains(x) && f(x).contains(error) {
            let x = choose|x: A| #[trigger] s.contains(x) && f(x).contains(error);
            let i = choose|i: int| 0 <= i < s.len() && s[i] == x;
            if i < rest.len() {
                assert(rest[i] == x);
                assert(rest.contains(x));
            }
        }
        if exists|x: A| #[trigger] rest.contains(x) && f(x).contains(error) {
            let x = choose|x: A| #[trigger] rest.contains(x) && f(x).contains(error);
            let i = choose|i: int| 0 <= i < rest.len() && rest[i] == x;
            assert(s[i] == x);
            assert(s.contains(x));
        }
        if f(s.last()).contains(error) {
            assert(s.contains(s.last()));
        }
    } else {
        assert(s.flat_map(f) =~= Seq::empty());
    }
}

proof fn lemma_broken_in<T: DeepView, R: Rule<T>>(
    c: AppConfigModel,
    around: AroundModel,
    section: Map<Text, T::V>,
    error: Text,
)
    requires
        section.dom().finite(),
    ensures
        broken_in::<T, R>(c, around, section).contains(error) <==> exists|id: Text| #[trigger]
            section.contains_key(id) && R::broken(c, around, id, section[id]).contains(error),
{
    let ids = sorted(section.dom());
    lemma_prefix_whole(section.dom());
    let f = |id: Text| R::broken(c, around, id, section[id]);
    lemma_in_flat(ids, f, error);
    if exists|id: Text| #[trigger] ids.contains(id) && f(id).contains(error) {
        let id = choose|id: Text| #[trigger] ids.contains(id) && f(id).contains(error);
        assert(section.contains_key(id));
    }
    if exists|id: Text| #[trigger] section.contains_key(id) && R::broken(c, around, id, section[id]).contains(error) {
        let id = choose|id: Text| #[trigger]
            section.contains_key(id) && R::broken(c, around, id, section[id]).contains(error);
        assert(ids.contains(id) && f(id).contains(error));
    }
}

/// What is wrong with a configuration is what is wrong with any of its entries by any of
/// the rules, and nothing else.
pub proof fn law_every_rule_is_asked(c: AppConfigModel, around: AroundModel, error: Text)
    requires
        c.enrichers.dom().finite(),
        c.endpoints.dom().finite(),
        c.views.dom().finite(),
        c.sources.dom().finite(),
        c.projects.dom().finite(),
        c.api_keys.dom().finite(),
        c.credentials.dom().finite(),
    ensures
        config_errors(c, around).contains(error) <==> {
            ||| exists|id: Text| #[trigger]
                c.enrichers.contains_key(id) && <EnricherRule as Rule<Enricher>>::broken(c, around, id, c.enrichers[id]).contains(error)
            ||| exists|id: Text| #[trigger]
                c.endpoints.contains_key(id) && <EndpointRule as Rule<OutputEndpoint>>::broken(c, around, id, c.endpoints[id]).contains(error)
            ||| exists|id: Text| #[trigger]
                c.views.contains_key(id) && <ViewRule as Rule<View>>::broken(c, around, id, c.views[id]).contains(error)
            ||| exists|id: Text| #[trigger]
                c.sources.contains_key(id) && <SourceCredentialRule as Rule<Source>>::broken(c, around, id, c.sources[id]).contains(error)
            ||| exists|id: Text| #[trigger]
                c.sources.contains_key(id) && <SourceProjectRule as Rule<Source>>::broken(c, around, id, c.sources[id]).contains(error)
            ||| exists|id: Text| #[trigger]
                c.sources.contains_key(id) && <HostsFromRule as Rule<Source>>::broken(c, around, id, c.sources[id]).contains(error)
            ||| exists|id: Text| #[trigger]
                c.sources.contains_key(id) && <ScopeRule as Rule<Source>>::broken(c, around, id, c.sources[id]).contains(error)
            ||| exists|id: Text| #[trigger]
                c.sources.contains_key(id) && <ScheduleRule as Rule<Source>>::broken(c, around, id, c.sources[id]).contains(error)
            ||| exists|id: Text| #[trigger]
                c.enrichers.contains_key(id) && <ScheduleRule as Rule<Enricher>>::broken(c, around, id, c.enrichers[id]).contains(error)
            ||| exists|id: Text| #[trigger]
                c.projects.contains_key(id) && <ScheduleRule as Rule<GitProject>>::broken(c, around, id, c.projects[id]).contains(error)
            ||| exists|id: Text| #[trigger]
                c.sources.contains_key(id) && <KnownHostsRule as Rule<Source>>::broken(c, around, id, c.sources[id]).contains(error)
            ||| exists|id: Text| #[trigger]
                c.sources.contains_key(id) && <RemoteRule as Rule<Source>>::broken(c, around, id, c.sources[id]).contains(error)
            ||| exists|id: Text| #[trigger]
                c.enrichers.contains_key(id) && <ScriptProjectRule as Rule<Enricher>>::broken(c, around, id, c.enrichers[id]).contains(error)
            ||| exists|id: Text| #[trigger]
                c.endpoints.contains_key(id) && <ScriptProjectRule as Rule<OutputEndpoint>>::broken(c, around, id, c.endpoints[id]).contains(error)
            ||| exists|id: Text| #[trigger]
                c.api_keys.contains_key(id) && <KeyRule as Rule<ApiKeyDef>>::broken(c, around, id, c.api_keys[id]).contains(error)
            ||| exists|id: Text| #[trigger]
                c.credentials.contains_key(id) && <VaultRule as Rule<Credential>>::broken(c, around, id, c.credentials[id]).contains(error)
            ||| exists|id: Text| #[trigger]
                c.projects.contains_key(id) && <ProjectCredentialRule as Rule<GitProject>>::broken(c, around, id, c.projects[id]).contains(error)
        },
{
    lemma_broken_in::<Enricher, EnricherRule>(c, around, c.enrichers, error);
    let e0 = broken_in::<Enricher, EnricherRule>(c, around, c.enrichers);
    lemma_broken_in::<OutputEndpoint, EndpointRule>(c, around, c.endpoints, error);
    let e1 = broken_in::<OutputEndpoint, EndpointRule>(c, around, c.endpoints);
    lemma_broken_in::<View, ViewRule>(c, around, c.views, error);
    let e2 = broken_in::<View, ViewRule>(c, around, c.views);
    lemma_broken_in::<Source, SourceCredentialRule>(c, around, c.sources, error);
    let e3 = broken_in::<Source, SourceCredentialRule>(c, around, c.sources);
    lemma_broken_in::<Source, SourceProjectRule>(c, around, c.sources, error);
    let e4 = broken_in::<Source, SourceProjectRule>(c, around, c.sources);
    lemma_broken_in::<Source, HostsFromRule>(c, around, c.sources, error);
    let e5 = broken_in::<Source, HostsFromRule>(c, around, c.sources);
    lemma_broken_in::<Source, ScopeRule>(c, around, c.sources, error);
    let e6 = broken_in::<Source, ScopeRule>(c, around, c.sources);
    lemma_broken_in::<Source, ScheduleRule>(c, around, c.sources, error);
    let e7 = broken_in::<Source, ScheduleRule>(c, around, c.sources);
    lemma_broken_in::<Enricher, ScheduleRule>(c, around, c.enrichers, error);
    let e8 = broken_in::<Enricher, ScheduleRule>(c, around, c.enrichers);
    lemma_broken_in::<GitProject, ScheduleRule>(c, around, c.projects, error);
    let e9 = broken_in::<GitProject, ScheduleRule>(c, around, c.projects);
    lemma_broken_in::<Source, KnownHostsRule>(c, around, c.sources, error);
    let e10 = broken_in::<Source, KnownHostsRule>(c, around, c.sources);
    lemma_broken_in::<Source, RemoteRule>(c, around, c.sources, error);
    let e11 = broken_in::<Source, RemoteRule>(c, around, c.sources);
    lemma_broken_in::<Enricher, ScriptProjectRule>(c, around, c.enrichers, error);
    let e12 = broken_in::<Enricher, ScriptProjectRule>(c, around, c.enrichers);
    lemma_broken_in::<OutputEndpoint, ScriptProjectRule>(c, around, c.endpoints, error);
    let e13 = broken_in::<OutputEndpoint, ScriptProjectRule>(c, around, c.endpoints);
    lemma_broken_in::<ApiKeyDef, KeyRule>(c, around, c.api_keys, error);
    let e14 = broken_in::<ApiKeyDef, KeyRule>(c, around, c.api_keys);
    lemma_broken_in::<Credential, VaultRule>(c, around, c.credentials, error);
    let e15 = broken_in::<Credential, VaultRule>(c, around, c.credentials);
    lemma_broken_in::<GitProject, ProjectCredentialRule>(c, around, c.projects, error);
    let e16 = broken_in::<GitProject, ProjectCredentialRule>(c, around, c.projects);
    let n0 = e0;
    lemma_either(n0, e1, error);
    let n1 = n0 + e1;
    lemma_either(n1, e2, error);
    let n2 = n1 + e2;
    lemma_either(n2, e3, error);
    let n3 = n2 + e3;
    lemma_either(n3, e4, error);
    let n4 = n3 + e4;
    lemma_either(n4, e5, error);
    let n5 = n4 + e5;
    lemma_either(n5, e6, error);
    let n6 = n5 + e6;
    lemma_either(n6, e7, error);
    let n7 = n6 + e7;
    lemma_either(n7, e8, error);
    let n8 = n7 + e8;
    lemma_either(n8, e9, error);
    let n9 = n8 + e9;
    lemma_either(n9, e10, error);
    let n10 = n9 + e10;
    lemma_either(n10, e11, error);
    let n11 = n10 + e11;
    lemma_either(n11, e12, error);
    let n12 = n11 + e12;
    lemma_either(n12, e13, error);
    let n13 = n12 + e13;
    lemma_either(n13, e14, error);
    let n14 = n13 + e14;
    lemma_either(n14, e15, error);
    let n15 = n14 + e15;
    lemma_either(n15, e16, error);
    let n16 = n15 + e16;
    assert(n16 == config_errors(c, around));
}

/// What is wrong with an enricher: that its target is a view or is not there, that its
/// source is not there, or that it has neither a source nor a script.
pub proof fn law_what_is_wrong_with_an_enricher(c: AppConfigModel, id: Text, x: EnricherModel, error: Text)
    ensures
        enricher_errors(c, id, x).contains(error) <==> {
            ||| c.views.contains_key(x.target_id) && error == "Enricher '"@ + id + "' targets view '"@ + x.target_id + "' \u{2014} a view has no cache entry to write into; target one of its member sources instead"@
            ||| !c.views.contains_key(x.target_id) && !c.sources.contains_key(x.target_id) && error == "Enricher '"@ + id + "' references unknown target '"@ + x.target_id + "'"@
            ||| x.source_id is Some && !c.sources.contains_key(x.source_id->0) && error == "Enricher '"@ + id + "' references unknown source '"@ + x.source_id->0 + "'"@
            ||| x.source_id is None && x.script_path is None && error == "Enricher '"@ + id + "' needs either source_id (declarative) or script_path (script)"@
        },
{
    let tail = match x.source_id {
        Some(source_id) => said_if(!c.sources.contains_key(source_id), "Enricher '"@ + id + "' references unknown source '"@ + source_id + "'"@),
        None => said_if(x.script_path is None, "Enricher '"@ + id + "' needs either source_id (declarative) or script_path (script)"@),
    };
    lemma_said(!c.sources.contains_key(x.source_id->0), "Enricher '"@ + id + "' references unknown source '"@ + x.source_id->0 + "'"@, error);
    lemma_said(x.script_path is None, "Enricher '"@ + id + "' needs either source_id (declarative) or script_path (script)"@, error);
    lemma_said(c.views.contains_key(x.target_id), "Enricher '"@ + id + "' targets view '"@ + x.target_id + "' \u{2014} a view has no cache entry to write into; target one of its member sources instead"@, error);
    let s0 = said_if(c.views.contains_key(x.target_id), "Enricher '"@ + id + "' targets view '"@ + x.target_id + "' \u{2014} a view has no cache entry to write into; target one of its member sources instead"@);
    lemma_said(!c.views.contains_key(x.target_id) && !c.sources.contains_key(x.target_id), "Enricher '"@ + id + "' references unknown target '"@ + x.target_id + "'"@, error);
    let s1 = said_if(!c.views.contains_key(x.target_id) && !c.sources.contains_key(x.target_id), "Enricher '"@ + id + "' references unknown target '"@ + x.target_id + "'"@);
    let s2 = tail;
    let n0 = s0;
    lemma_either(n0, s1, error);
    let n1 = n0 + s1;
    lemma_either(n1, s2, error);
    let n2 = n1 + s2;
    assert(n2 =~= enricher_errors(c, id, x));
}

/// What is wrong with an endpoint: that a source of it is a view or is not there, that it is
/// rendered in no way or in two, that it has settings of a script and runs none, and that its
/// limit names nothing or what it does not read.
pub proof fn law_what_is_wrong_with_an_endpoint(c: AppConfigModel, id: Text, x: OutputEndpointModel, error: Text)
    ensures
        endpoint_errors(c, id, x).contains(error) <==> {
            ||| exists|name: Text| #[trigger]
                x.source_ids.contains(name) && c.views.contains_key(name) && error == "Endpoint '"@ + id + "' references view '"@ + name + "' \u{2014} output endpoints read cached sources, not views; list the view's member sources instead"@
            ||| exists|name: Text| #[trigger]
                x.source_ids.contains(name) && !c.views.contains_key(name) && !c.sources.contains_key(name) && error == "Endpoint '"@ + id + "' references unknown source '"@ + name + "'"@
            ||| x.output is Some == x.script_path is Some && error == "Endpoint '"@ + id + "' needs exactly one of output (builtin) or script_path (script)"@
            ||| x.output is Some && x.script_path is None && x.project_id is Some && error == "Endpoint '"@ + id + "' sets project_id but runs no script"@
            ||| x.output is Some && x.script_path is None && x.timeout_seconds is Some && error == "Endpoint '"@ + id + "' sets timeout_seconds but runs no script"@
            ||| x.limit is Some && x.limit->0.by_hosts_from_inventory is None && error == "Endpoint '"@ + id + "' has an empty limit \u{2014} name a rule, or remove the block"@
            ||| x.limit is Some && x.limit->0.by_hosts_from_inventory is Some && !x.source_ids.contains(
                x.limit->0.by_hosts_from_inventory->0,
            ) && error == "Endpoint '"@ + id + "' limits to the hosts of '"@ + x.limit->0.by_hosts_from_inventory->0 + "', which is not one of its source_ids"@
        },
{
    lemma_in_filter_map(x.source_ids, endpoint_source_error(c, id), error);
    if x.source_ids.filter_map(endpoint_source_error(c, id)).contains(error) {
        let name = choose|name: Text| #[trigger] x.source_ids.contains(name) && (endpoint_source_error(c, id))(name) == Some(error);
        assert(x.source_ids.contains(name));
    }
    assert forall|name: Text| #[trigger] x.source_ids.contains(name) && c.views.contains_key(name) && error == "Endpoint '"@ + id + "' references view '"@ + name + "' \u{2014} output endpoints read cached sources, not views; list the view's member sources instead"@ implies x.source_ids.filter_map(endpoint_source_error(c, id)).contains(
        error,
    ) by {
        assert((endpoint_source_error(c, id))(name) == Some(error));
    }
    assert forall|name: Text| #[trigger] x.source_ids.contains(name) && !c.views.contains_key(name) && !c.sources.contains_key(name) && error == "Endpoint '"@ + id + "' references unknown source '"@ + name + "'"@ implies x.source_ids.filter_map(endpoint_source_error(c, id)).contains(
        error,
    ) by {
        assert((endpoint_source_error(c, id))(name) == Some(error));
    }
    let limits = limit_errors(id, x.source_ids, x.limit);
    lemma_said(true, "Endpoint '"@ + id + "' has an empty limit \u{2014} name a rule, or remove the block"@, error);
    if x.limit is Some && x.limit->0.by_hosts_from_inventory is Some {
        lemma_said(!x.source_ids.contains(x.limit->0.by_hosts_from_inventory->0), "Endpoint '"@ + id + "' limits to the hosts of '"@ + x.limit->0.by_hosts_from_inventory->0 + "', which is not one of its source_ids"@, error);
    }
    assert(limits.contains(error) <==> (x.limit is Some && x.limit->0.by_hosts_from_inventory is None && error == "Endpoint '"@ + id + "' has an empty limit \u{2014} name a rule, or remove the block"@) || (x.limit is Some && x.limit->0.by_hosts_from_inventory is Some && !x.source_ids.contains(
                x.limit->0.by_hosts_from_inventory->0,
            ) && error == "Endpoint '"@ + id + "' limits to the hosts of '"@ + x.limit->0.by_hosts_from_inventory->0 + "', which is not one of its source_ids"@));
    let s0 = x.source_ids.filter_map(endpoint_source_error(c, id));
    lemma_said(x.output is Some == x.script_path is Some, "Endpoint '"@ + id + "' needs exactly one of output (builtin) or script_path (script)"@, error);
    let s1 = said_if(x.output is Some == x.script_path is Some, "Endpoint '"@ + id + "' needs exactly one of output (builtin) or script_path (script)"@);
    lemma_said(x.output is Some && x.script_path is None && x.project_id is Some, "Endpoint '"@ + id + "' sets project_id but runs no script"@, error);
    let s2 = said_if(x.output is Some && x.script_path is None && x.project_id is Some, "Endpoint '"@ + id + "' sets project_id but runs no script"@);
    lemma_said(x.output is Some && x.script_path is None && x.timeout_seconds is Some, "Endpoint '"@ + id + "' sets timeout_seconds but runs no script"@, error);
    let s3 = said_if(x.output is Some && x.script_path is None && x.timeout_seconds is Some, "Endpoint '"@ + id + "' sets timeout_seconds but runs no script"@);
    let s4 = limits;
    let n0 = s0;
    lemma_either(n0, s1, error);
    let n1 = n0 + s1;
    lemma_either(n1, s2, error);
    let n2 = n1 + s2;
    lemma_either(n2, s3, error);
    let n3 = n2 + s3;
    lemma_either(n3, s4, error);
    let n4 = n3 + s4;
    assert(n4 =~= endpoint_errors(c, id, x));
}

/// What is wrong with a member of a view: that it is a view or is not there, that it can
/// never claim a host, that it is listed before, or that what it owns is resolved against a
/// source that is not there.
pub proof fn law_what_is_wrong_with_a_member(
    c: AppConfigModel,
    id: Text,
    members: Seq<ViewMemberModel>,
    i: int,
    error: Text,
)
    requires
        0 <= i < members.len(),
    ensures
        ({
            let m = members[i];
            member_errors(c, id, members, i).contains(error) <==> {
                ||| c.views.contains_key(m.source) && error == "View '"@ + id + "' has member '"@ + m.source + "' which is another view \u{2014} views do not nest"@
                ||| !c.views.contains_key(m.source) && !c.sources.contains_key(m.source) && error == "View '"@ + id + "' references unknown source '"@ + m.source + "'"@
                ||| m.owns.advertised && m.owns.groups.len() == 0 && m.owns.hosts.len() == 0 && !(c.sources.contains_key(m.source) && (c.sources[m.source].connector_type is Remote || c.sources[m.source].advertise_scope is Some || c.sources[m.source].hosts_from_source is Some)) && error == "View '"@ + id + "' member '"@ + m.source + "' uses advertised ownership, but the source advertises no scope and no fallback groups/hosts are declared \u{2014} the member would claim nothing, ever"@
                ||| (exists|j: int| 0 <= j < i && (#[trigger] members[j]).source == m.source) && error == "View '"@ + id + "' lists source '"@ + m.source + "' twice \u{2014} the second member could never win a host, since the first claim wins"@
                ||| !c.sources.contains_key(m.owns.source) && error == "View '"@ + id + "' member '"@ + m.source + "' resolves ownership against unknown source '"@ + m.owns.source + "'"@
            }
        }),
{
    let m = members[i];
    lemma_said(c.views.contains_key(m.source), "View '"@ + id + "' has member '"@ + m.source + "' which is another view \u{2014} views do not nest"@, error);
    let s0 = said_if(c.views.contains_key(m.source), "View '"@ + id + "' has member '"@ + m.source + "' which is another view \u{2014} views do not nest"@);
    lemma_said(!c.views.contains_key(m.source) && !c.sources.contains_key(m.source), "View '"@ + id + "' references unknown source '"@ + m.source + "'"@, error);
    let s1 = said_if(!c.views.contains_key(m.source) && !c.sources.contains_key(m.source), "View '"@ + id + "' references unknown source '"@ + m.source + "'"@);
    lemma_said(m.owns.advertised && m.owns.groups.len() == 0 && m.owns.hosts.len() == 0 && !(c.sources.contains_key(m.source) && (c.sources[m.source].connector_type is Remote || c.sources[m.source].advertise_scope is Some || c.sources[m.source].hosts_from_source is Some)), "View '"@ + id + "' member '"@ + m.source + "' uses advertised ownership, but the source advertises no scope and no fallback groups/hosts are declared \u{2014} the member would claim nothing, ever"@, error);
    let s2 = said_if(m.owns.advertised && m.owns.groups.len() == 0 && m.owns.hosts.len() == 0 && !(c.sources.contains_key(m.source) && (c.sources[m.source].connector_type is Remote || c.sources[m.source].advertise_scope is Some || c.sources[m.source].hosts_from_source is Some)), "View '"@ + id + "' member '"@ + m.source + "' uses advertised ownership, but the source advertises no scope and no fallback groups/hosts are declared \u{2014} the member would claim nothing, ever"@);
    lemma_said((exists|j: int| 0 <= j < i && (#[trigger] members[j]).source == m.source), "View '"@ + id + "' lists source '"@ + m.source + "' twice \u{2014} the second member could never win a host, since the first claim wins"@, error);
    let s3 = said_if((exists|j: int| 0 <= j < i && (#[trigger] members[j]).source == m.source), "View '"@ + id + "' lists source '"@ + m.source + "' twice \u{2014} the second member could never win a host, since the first claim wins"@);
    lemma_said(!c.sources.contains_key(m.owns.source), "View '"@ + id + "' member '"@ + m.source + "' resolves ownership against unknown source '"@ + m.owns.source + "'"@, error);
    let s4 = said_if(!c.sources.contains_key(m.owns.source), "View '"@ + id + "' member '"@ + m.source + "' resolves ownership against unknown source '"@ + m.owns.source + "'"@);
    let n0 = s0;
    lemma_either(n0, s1, error);
    let n1 = n0 + s1;
    lemma_either(n1, s2, error);
    let n2 = n1 + s2;
    lemma_either(n2, s3, error);
    let n3 = n2 + s3;
    lemma_either(n3, s4, error);
    let n4 = n3 + s4;
    assert(n4 =~= member_errors(c, id, members, i));
}

proof fn lemma_members_errors(c: AppConfigModel, id: Text, members: Seq<ViewMemberModel>, n: int, error: Text)
    requires
        0 <= n <= members.len(),
    ensures
        members_errors(c, id, members, n).contains(error) <==> exists|i: int|
            0 <= i < n && #[trigger] member_errors(c, id, members, i).contains(error),
    decreases n,
{
    if n > 0 {
        lemma_members_errors(c, id, members, n - 1, error);
        lemma_either(members_errors(c, id, members, n - 1), member_errors(c, id, members, n - 1), error);
    }
}

/// What is wrong with a view: that it has the name of a source, that it has no members, and
/// what is wrong with its members.
pub proof fn law_what_is_wrong_with_a_view(c: AppConfigModel, id: Text, x: ViewModel, error: Text)
    ensures
        view_errors(c, id, x).contains(error) <==> {
            ||| c.sources.contains_key(id) && error == "View '"@ + id + "' has the same id as a source \u{2014} views are served on the source routes, so the ids must not collide"@
            ||| x.members.len() == 0 && error == "View '"@ + id + "' has no members"@
            ||| exists|i: int| 0 <= i < x.members.len() && #[trigger] member_errors(c, id, x.members, i).contains(error)
        },
{
    let members = members_errors(c, id, x.members, x.members.len() as int);
    lemma_members_errors(c, id, x.members, x.members.len() as int, error);
    lemma_said(c.sources.contains_key(id), "View '"@ + id + "' has the same id as a source \u{2014} views are served on the source routes, so the ids must not collide"@, error);
    let s0 = said_if(c.sources.contains_key(id), "View '"@ + id + "' has the same id as a source \u{2014} views are served on the source routes, so the ids must not collide"@);
    lemma_said(x.members.len() == 0, "View '"@ + id + "' has no members"@, error);
    let s1 = said_if(x.members.len() == 0, "View '"@ + id + "' has no members"@);
    let s2 = members;
    let n0 = s0;
    lemma_either(n0, s1, error);
    let n1 = n0 + s1;
    lemma_either(n1, s2, error);
    let n2 = n1 + s2;
    assert(n2 =~= view_errors(c, id, x));
}

/// What is wrong with a source that takes its hosts from another: that it is not reached over
/// SSH, that the other is itself or is not there, or that it has hosts of its own.
pub proof fn law_what_is_wrong_with_hosts_from_elsewhere(c: AppConfigModel, id: Text, x: SourceModel, error: Text)
    ensures
        hosts_from_errors(c, id, x).contains(error) <==> {
            ||| x.hosts_from_source is Some && x.connector_type != ConnectorType::Ssh && error == "Source '"@ + id + "' sets hosts_from_source but is not an ssh source"@
            ||| x.hosts_from_source is Some && x.hosts_from_source->0.source == id && error == "Source '"@ + id + "' cannot use itself as hosts_from_source"@
            ||| x.hosts_from_source is Some && x.hosts_from_source->0.source != id && !c.sources.contains_key(x.hosts_from_source->0.source) && error == "Source '"@ + id + "' references unknown source '"@ + x.hosts_from_source->0.source + "' in hosts_from_source"@
            ||| x.hosts_from_source is Some && x.config.contains_key("hosts"@) && error == "Source '"@ + id + "' sets both config.hosts and hosts_from_source \u{2014} pick one"@
        },
{
    if x.hosts_from_source is Some {
        lemma_said(x.connector_type != ConnectorType::Ssh, "Source '"@ + id + "' sets hosts_from_source but is not an ssh source"@, error);
        let s0 = said_if(x.connector_type != ConnectorType::Ssh, "Source '"@ + id + "' sets hosts_from_source but is not an ssh source"@);
        lemma_said(x.hosts_from_source->0.source == id, "Source '"@ + id + "' cannot use itself as hosts_from_source"@, error);
        let s1 = said_if(x.hosts_from_source->0.source == id, "Source '"@ + id + "' cannot use itself as hosts_from_source"@);
        lemma_said(x.hosts_from_source->0.source != id && !c.sources.contains_key(x.hosts_from_source->0.source), "Source '"@ + id + "' references unknown source '"@ + x.hosts_from_source->0.source + "' in hosts_from_source"@, error);
        let s2 = said_if(x.hosts_from_source->0.source != id && !c.sources.contains_key(x.hosts_from_source->0.source), "Source '"@ + id + "' references unknown source '"@ + x.hosts_from_source->0.source + "' in hosts_from_source"@);
        lemma_said(x.config.contains_key("hosts"@), "Source '"@ + id + "' sets both config.hosts and hosts_from_source \u{2014} pick one"@, error);
        let s3 = said_if(x.config.contains_key("hosts"@), "Source '"@ + id + "' sets both config.hosts and hosts_from_source \u{2014} pick one"@);
        let n0 = s0;
        lemma_either(n0, s1, error);
        let n1 = n0 + s1;
        lemma_either(n1, s2, error);
        let n2 = n1 + s2;
        lemma_either(n2, s3, error);
        let n3 = n2 + s3;
        assert(n3 =~= hosts_from_errors(c, id, x));
    }
}

/// What is wrong with a schedule: that it is none, or that there is an interval too.
pub proof fn law_what_is_wrong_with_a_schedule(
    what: Text,
    id: Text,
    schedule: Option<Text>,
    interval: Option<u64>,
    crons: Map<Text, Text>,
    error: Text,
)
    ensures
        schedule_errors(what, id, schedule, interval, crons).contains(error) <==> {
            ||| schedule is Some && crons.contains_key(schedule->0) && error == what + " '"@ + id + "' has an invalid cron schedule '"@ + schedule->0 + "': "@ + crons[schedule->0]
            ||| schedule is Some && interval is Some && interval->0 > 0 && error == what + " '"@ + id + "' sets both schedule and sync_interval_seconds \u{2014} pick one"@
        },
{
    if schedule is Some {
        lemma_said(crons.contains_key(schedule->0), what + " '"@ + id + "' has an invalid cron schedule '"@ + schedule->0 + "': "@ + crons[schedule->0], error);
        let s0 = said_if(crons.contains_key(schedule->0), what + " '"@ + id + "' has an invalid cron schedule '"@ + schedule->0 + "': "@ + crons[schedule->0]);
        lemma_said(interval is Some && interval->0 > 0, what + " '"@ + id + "' sets both schedule and sync_interval_seconds \u{2014} pick one"@, error);
        let s1 = said_if(interval is Some && interval->0 > 0, what + " '"@ + id + "' sets both schedule and sync_interval_seconds \u{2014} pick one"@);
        let n0 = s0;
        lemma_either(n0, s1, error);
        let n1 = n0 + s1;
        assert(n1 =~= schedule_errors(what, id, schedule, interval, crons));
    }
}

/// What is wrong with known hosts: that the source is not reached over SSH, or that the file
/// is not there.
pub proof fn law_what_is_wrong_with_known_hosts(id: Text, x: SourceModel, files: Set<Text>, error: Text)
    ensures
        known_hosts_errors(id, x, files).contains(error) <==> {
            ||| x.config.contains_key("ssh_known_hosts"@) && x.connector_type != ConnectorType::Ssh && error == "Source '"@ + id + "' sets ssh_known_hosts but is not an ssh source"@
            ||| x.config.contains_key("ssh_known_hosts"@) && x.connector_type == ConnectorType::Ssh && !files.contains(x.config["ssh_known_hosts"@]) && error == "Source '"@ + id + "': ssh_known_hosts file '"@ + x.config["ssh_known_hosts"@] + "' does not exist"@
        },
{
    lemma_said(true, "Source '"@ + id + "' sets ssh_known_hosts but is not an ssh source"@, error);
    lemma_said(!files.contains(x.config["ssh_known_hosts"@]), "Source '"@ + id + "': ssh_known_hosts file '"@ + x.config["ssh_known_hosts"@] + "' does not exist"@, error);
    assert(seq!["Source '"@ + id + "' sets ssh_known_hosts but is not an ssh source"@] =~= said_if(true, "Source '"@ + id + "' sets ssh_known_hosts but is not an ssh source"@));
}

/// What else is wrong with a source: a credential or a project that is not there, a scope
/// that names nothing, and a remote source without an address.
pub proof fn law_what_is_wrong_with_a_source(c: AppConfigModel, around: AroundModel, id: Text, x: SourceModel, error: Text)
    ensures
        <SourceCredentialRule as Rule<Source>>::broken(c, around, id, x).contains(error) <==> exists|name: Text|
            #[trigger] x.credential_ids.contains(name) && !c.credentials.contains_key(name) && error
                == "Source '"@ + id + "' references unknown credential '"@ + name + "'"@,
        <SourceProjectRule as Rule<Source>>::broken(c, around, id, x).contains(error) <==> !c.projects.contains_key(
            x.project_id,
        ) && error == "Source '"@ + id + "' references unknown project '"@ + x.project_id + "'"@,
        <ScopeRule as Rule<Source>>::broken(c, around, id, x).contains(error) <==> x.advertise_scope is Some
            && x.advertise_scope->0.groups.len() == 0 && x.advertise_scope->0.hosts.len() == 0 && error == "Source '"@
            + id
            + "' has an empty advertise_scope \u{2014} name at least one                      group or host, or remove the block"@,
        <RemoteRule as Rule<Source>>::broken(c, around, id, x).contains(error) <==> x.connector_type is Remote
            && !x.config.contains_key("url"@) && error == "Source '"@ + id
            + "' is a remote source but has no 'url' in config"@,
        <HostsFromRule as Rule<Source>>::broken(c, around, id, x) == hosts_from_errors(c, id, x),
        <KnownHostsRule as Rule<Source>>::broken(c, around, id, x) == known_hosts_errors(id, x, around.files),
        <ScheduleRule as Rule<Source>>::broken(c, around, id, x) == schedule_errors(
            "Source"@,
            id,
            x.schedule,
            x.sync_interval_seconds,
            around.invalid_crons,
        ),
{
    let told = "Source '"@ + id
        + "' has an empty advertise_scope \u{2014} name at least one                      group or host, or remove the block"@;
    lemma_said(!c.projects.contains_key(x.project_id), "Source '"@ + id + "' references unknown project '"@ + x.project_id + "'"@, error);
    lemma_said(x.advertise_scope matches Some(scope) && scope.groups.len() == 0 && scope.hosts.len() == 0, told, error);
    lemma_said(x.connector_type == ConnectorType::Remote && !x.config.contains_key("url"@), "Source '"@ + id + "' is a remote source but has no 'url' in config"@, error);
    lemma_in_filter_map(x.credential_ids, source_credential_error(c, id), error);
    if x.credential_ids.filter_map(source_credential_error(c, id)).contains(error) {
        let name = choose|name: Text| #[trigger] x.credential_ids.contains(name) && (source_credential_error(c, id))(name) == Some(error);
        assert(x.credential_ids.contains(name));
    }
    assert forall|name: Text| #[trigger] x.credential_ids.contains(name) && !c.credentials.contains_key(name) && error == "Source '"@ + id + "' references unknown credential '"@ + name + "'"@ implies x.credential_ids.filter_map(source_credential_error(c, id)).contains(
        error,
    ) by {
        assert((source_credential_error(c, id))(name) == Some(error));
    }
}

/// What is wrong with what a restricted key opens: a source or an endpoint that is not
/// there. A key that opens everything names nothing.
pub proof fn law_what_is_wrong_with_a_key(c: AppConfigModel, id: Text, x: ApiKeyDefModel, error: Text)
    ensures
        x.role is Admin ==> key_errors(c, id, x).len() == 0,
        x.role is Restricted ==> (key_errors(c, id, x).contains(error) <==> {
            ||| exists|name: Text| #[trigger]
                x.sources.contains(name) && !c.sources.contains_key(name) && !c.views.contains_key(name) && error
                    == "API key '"@ + id + "' references unknown source or view '"@ + name + "'"@
            ||| exists|name: Text| #[trigger]
                x.endpoints.contains(name) && !c.endpoints.contains_key(name) && error == "API key '"@ + id
                    + "' references unknown endpoint '"@ + name + "'"@
        }),
{
    lemma_either(x.sources.filter_map(key_source_error(c, id)), x.endpoints.filter_map(key_endpoint_error(c, id)), error);
    lemma_in_filter_map(x.sources, key_source_error(c, id), error);
    if x.sources.filter_map(key_source_error(c, id)).contains(error) {
        let name = choose|name: Text| #[trigger] x.sources.contains(name) && (key_source_error(c, id))(name) == Some(error);
        assert(x.sources.contains(name));
    }
    assert forall|name: Text| #[trigger] x.sources.contains(name) && !c.sources.contains_key(name) && !c.views.contains_key(name) && error == "API key '"@ + id + "' references unknown source or view '"@ + name + "'"@ implies x.sources.filter_map(key_source_error(c, id)).contains(
        error,
    ) by {
        assert((key_source_error(c, id))(name) == Some(error));
    }
    lemma_in_filter_map(x.endpoints, key_endpoint_error(c, id), error);
    if x.endpoints.filter_map(key_endpoint_error(c, id)).contains(error) {
        let name = choose|name: Text| #[trigger] x.endpoints.contains(name) && (key_endpoint_error(c, id))(name) == Some(error);
        assert(x.endpoints.contains(name));
    }
    assert forall|name: Text| #[trigger] x.endpoints.contains(name) && !c.endpoints.contains_key(name) && error == "API key '"@ + id + "' references unknown endpoint '"@ + name + "'"@ implies x.endpoints.filter_map(key_endpoint_error(c, id)).contains(
        error,
    ) by {
        assert((key_endpoint_error(c, id))(name) == Some(error));
    }
}

/// What is wrong with the projects of scripts, with credentials and with projects: a project
/// or a credential that is not there, and a path in a vault where there is none.
pub proof fn law_what_is_wrong_with_the_rest(
    c: AppConfigModel,
    around: AroundModel,
    id: Text,
    enricher: EnricherModel,
    endpoint: OutputEndpointModel,
    credential: CredentialModel,
    project: GitProjectModel,
    view: ViewModel,
    key: ApiKeyDefModel,
    error: Text,
)
    ensures
        <ScriptProjectRule as Rule<Enricher>>::broken(c, around, id, enricher).contains(error) <==> enricher.project_id
            is Some && !c.projects.contains_key(enricher.project_id->0) && error == "Enricher"@ + " '"@ + id
            + "' references unknown project '"@ + enricher.project_id->0 + "'"@,
        <ScriptProjectRule as Rule<OutputEndpoint>>::broken(c, around, id, endpoint).contains(error)
            <==> endpoint.project_id is Some && !c.projects.contains_key(endpoint.project_id->0) && error
            == "Endpoint"@ + " '"@ + id + "' references unknown project '"@ + endpoint.project_id->0 + "'"@,
        <VaultRule as Rule<Credential>>::broken(c, around, id, credential).contains(error) <==> c.secrets_config.vault
            is None && credential.vault_path is Some && error == "Credential '"@ + id
            + "' sets vault_path but config.yaml has no secrets.vault block to resolve it against"@,
        <ProjectCredentialRule as Rule<GitProject>>::broken(c, around, id, project).contains(error)
            <==> project.credential_id is Some && !c.credentials.contains_key(project.credential_id->0) && error
            == "Project '"@ + id + "' references unknown credential '"@ + project.credential_id->0 + "'"@,
        <ScheduleRule as Rule<Enricher>>::broken(c, around, id, enricher) == schedule_errors(
            "Enricher"@,
            id,
            enricher.schedule,
            enricher.sync_interval_seconds,
            around.invalid_crons,
        ),
        <ScheduleRule as Rule<GitProject>>::broken(c, around, id, project) == schedule_errors(
            "Project"@,
            id,
            project.schedule,
            project.sync_interval_seconds,
            around.invalid_crons,
        ),
        <EnricherRule as Rule<Enricher>>::broken(c, around, id, enricher) == enricher_errors(c, id, enricher),
        <EndpointRule as Rule<OutputEndpoint>>::broken(c, around, id, endpoint) == endpoint_errors(c, id, endpoint),
        <ViewRule as Rule<View>>::broken(c, around, id, view) == view_errors(c, id, view),
        <KeyRule as Rule<ApiKeyDef>>::broken(c, around, id, key) == key_errors(c, id, key),
{
    lemma_said(!c.projects.contains_key(enricher.project_id->0), "Enricher"@ + " '"@ + id + "' references unknown project '"@ + enricher.project_id->0 + "'"@, error);
    lemma_said(!c.projects.contains_key(endpoint.project_id->0), "Endpoint"@ + " '"@ + id + "' references unknown project '"@ + endpoint.project_id->0 + "'"@, error);
    lemma_said(c.secrets_config.vault is None && credential.vault_path is Some, "Credential '"@ + id + "' sets vault_path but config.yaml has no secrets.vault block to resolve it against"@, error);
    lemma_said(!c.credentials.contains_key(project.credential_id->0), "Project '"@ + id + "' references unknown credential '"@ + project.credential_id->0 + "'"@, error);
}

/// All that is wrong is told in one text: a heading, and each error on a line of its own, in
/// its place.
pub proof fn law_every_error_is_told(errors: Seq<Text>, more: Text)
    requires
        errors.len() > 0,
    ensures
        errors_text(seq![more]) == "Configuration errors:\n  - "@ + more,
        errors_text(errors.push(more)) == errors_text(errors) + "\n  - "@ + more,
{
    assert(errors.push(more).drop_last() =~= errors);
    assert(join_text(seq![more], "\n  - "@) == more);
    assert(errors_text(errors.push(more)) =~= errors_text(errors) + "\n  - "@ + more);
}

} // verus!
