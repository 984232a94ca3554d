//! What has to hold of a configuration as a whole: the rules, and everything that
//! breaks them.

#[allow(unused_imports)]
use crate::config::{said_if, AppConfigModel, AroundModel};
use crate::config::{say_if, AppConfig, Surroundings};
#[allow(unused_imports)]
use crate::domain::api_key::ApiKeyDefModel;
use crate::domain::api_key::{ApiKeyDef, ApiKeyRole};
use crate::domain::cache_entry::contains_string;
use crate::domain::credential::Credential;
#[allow(unused_imports)]
use crate::domain::credential::CredentialModel;
use crate::domain::endpoint::{EndpointLimit, OutputEndpoint};
#[allow(unused_imports)]
use crate::domain::endpoint::{EndpointLimitModel, OutputEndpointModel};
use crate::domain::enricher::Enricher;
#[allow(unused_imports)]
use crate::domain::enricher::EnricherModel;
use crate::domain::project::GitProject;
#[allow(unused_imports)]
use crate::domain::project::GitProjectModel;
#[allow(unused_imports)]
use crate::domain::source::{scope_of, SourceModel};
use crate::domain::source::{ConnectorType, Source};
#[allow(unused_imports)]
use crate::domain::view::{ViewMemberModel, ViewModel};
use crate::domain::view::{View, ViewMember};
#[allow(unused_imports)]
use crate::strmap::sorted;
use crate::strmap::{StrMap, StrSet};
#[allow(unused_imports)]
use crate::text::{join_text, Text};
use crate::text::{cat2, cat3, cat5, join, str_eq};
use vstd::prelude::*;
#[allow(unused_imports)]
use vstd::view::View as _;

verus! {

/// A rule that each entry of a section keeps or breaks.
pub trait Rule<T: DeepView> {
    /// How an entry breaks it.
    spec fn broken(c: AppConfigModel, around: AroundModel, id: Text, x: T::V) -> Seq<Text>;

    /// Adds to the errors how an entry breaks it.
    fn check(cfg: &AppConfig, around: &Surroundings, id: &str, x: &T, errors: &mut Vec<String>)
        ensures
            final(errors).deep_view() == old(errors).deep_view() + Self::broken(
                cfg.deep_view(),
                around.deep_view(),
                id@,
                x.deep_view(),
            ),
    ;
}

/// How the entries of a section break a rule, in ascending order of their ids.
pub open spec fn broken_in<T: DeepView, R: Rule<T>>(
    c: AppConfigModel,
    around: AroundModel,
    section: Map<Text, T::V>,
) -> Seq<Text> {
    sorted(section.dom()).flat_map(|id: Text| R::broken(c, around, id, section[id]))
}

fn check_every<T: DeepView, R: Rule<T>>(
    cfg: &AppConfig,
    around: &Surroundings,
    section: &StrMap<T>,
    errors: &mut Vec<String>,
)
    ensures
        final(errors).deep_view() == old(errors).deep_view() + broken_in::<T, R>(
            cfg.deep_view(),
            around.deep_view(),
            section@,
        ),
{
    let ghost before = errors.deep_view();
    let ghost keys = sorted(section@.dom());
    let ghost c = cfg.deep_view();
    let ghost a = around.deep_view();
    let ghost broken = |id: Text| R::broken(c, a, id, section@[id]);
    let n: usize = section.len();
    let mut i: usize = 0;
    assert(errors.deep_view() =~= before + keys.take(0).flat_map(broken));
    while i < n
        invariant
            i <= n == keys.len(),
            keys == sorted(section@.dom()),
            c == cfg.deep_view(),
            a == around.deep_view(),
            broken == (|id: Text| R::broken(c, a, id, section@[id])),
            errors.deep_view() == before + keys.take(i as int).flat_map(broken),
        decreases n - i,
    {
        let ghost said = errors.deep_view();
        R::check(cfg, around, section.key_at(i).as_str(), section.value_at(i), errors);
        proof {
            keys.lemma_flat_map_take_append(broken, i as int);
            assert(errors.deep_view() =~= said + broken(keys[i as int]));
            assert(errors.deep_view() =~= before + keys.take(i + 1).flat_map(broken));
        }
        i += 1;
    }
    assert(keys.take(n as int) =~= keys);
}

/// A rule that each of the names in a list keeps or breaks.
pub trait NameRule {
    /// How a name in the list of an entry breaks it.
    spec fn broken(c: AppConfigModel, id: Text) -> spec_fn(Text) -> Option<Text>;

    /// How a name in the list of an entry breaks it.
    fn check(cfg: &AppConfig, id: &str, name: &str) -> (error: Option<String>)
        ensures
            error.deep_view() == Self::broken(cfg.deep_view(), id@)(name@),
    ;
}

fn check_names<R: NameRule>(cfg: &AppConfig, id: &str, names: &Vec<String>, errors: &mut Vec<String>)
    ensures
        final(errors).deep_view() == old(errors).deep_view() + names.deep_view().filter_map(
            R::broken(cfg.deep_view(), id@),
        ),
{
    let ghost before = errors.deep_view();
    let ghost all = names.deep_view();
    let ghost broken = R::broken(cfg.deep_view(), id@);
    let mut i: usize = 0;
    assert(errors.deep_view() =~= before + all.take(0).filter_map(broken));
    while i < names.len()
        invariant
            i <= names@.len(),
            all == names.deep_view(),
            broken == R::broken(cfg.deep_view(), id@),
            errors.deep_view() == before + all.take(i as int).filter_map(broken),
        decreases names@.len() - i,
    {
        let ghost said = errors.deep_view();
        proof {
            all.lemma_filter_map_take_succ(broken, i as int);
            assert(all[i as int] == names@[i as int]@);
        }
        if let Some(error) = R::check(cfg, id, names[i].as_str()) {
            let ghost text = error@;
            errors.push(error);
            assert(errors.deep_view() =~= said + seq![text]);
        }
        assert(errors.deep_view() =~= before + all.take(i + 1).filter_map(broken));
        i += 1;
    }
    assert(all.take(all.len() as int) =~= all);
}

/// How an enricher is at odds with its target, and with what it takes from where.
pub open spec fn enricher_errors(c: AppConfigModel, id: Text, x: EnricherModel) -> Seq<Text> {
    said_if(
        c.views.contains_key(x.target_id),
        "Enricher '"@ + id + "' targets view '"@ + x.target_id
            + "' \u{2014} a view has no cache entry to write into; target one of its member sources instead"@,
    ) + said_if(
        !c.views.contains_key(x.target_id) && !c.sources.contains_key(x.target_id),
        "Enricher '"@ + id + "' references unknown target '"@ + x.target_id + "'"@,
    ) + match x.source_id {
        Some(source_id) => said_if(
            !c.sources.contains_key(source_id),
            "Enricher '"@ + id + "' references unknown source '"@ + source_id + "'"@,
        ),
        None => said_if(
            x.script_path is None,
            "Enricher '"@ + id + "' needs either source_id (declarative) or script_path (script)"@,
        ),
    }
}

/// Enrichers have a target, and something to do.
pub struct EnricherRule;

impl Rule<Enricher> for EnricherRule {
    open spec fn broken(c: AppConfigModel, around: AroundModel, id: Text, x: EnricherModel) -> Seq<Text> {
        enricher_errors(c, id, x)
    }

    fn check(cfg: &AppConfig, around: &Surroundings, id: &str, x: &Enricher, errors: &mut Vec<String>) {
        let target: &str = x.target_id.as_str();
        let is_view: bool = cfg.views.contains_key(target);
        let ghost before = errors.deep_view();
        say_if(
            errors,
            is_view,
            cat5(
                "Enricher '",
                id,
                "' targets view '",
                target,
                "' \u{2014} a view has no cache entry to write into; target one of its member sources instead",
            ).as_str(),
        );
        say_if(
            errors,
            !is_view && !cfg.sources.contains_key(target),
            cat5("Enricher '", id, "' references unknown target '", target, "'").as_str(),
        );
        match &x.source_id {
            Some(source_id) => say_if(
                errors,
                !cfg.sources.contains_key(source_id.as_str()),
                cat5("Enricher '", id, "' references unknown source '", source_id.as_str(), "'").as_str(),
            ),
            None => say_if(
                errors,
                x.script_path.is_none(),
                cat3("Enricher '", id, "' needs either source_id (declarative) or script_path (script)").as_str(),
            ),
        }
        assert(errors.deep_view() =~= before + enricher_errors(cfg.deep_view(), id@, x.deep_view()));
    }
}

/// A source of an endpoint that there is not.
pub open spec fn endpoint_source_error(c: AppConfigModel, id: Text) -> spec_fn(Text) -> Option<Text> {
    |name: Text|
        if c.views.contains_key(name) {
            Some(
                "Endpoint '"@ + id + "' references view '"@ + name
                    + "' \u{2014} output endpoints read cached sources, not views; list the view's member sources instead"@,
            )
        } else if !c.sources.contains_key(name) {
            Some("Endpoint '"@ + id + "' references unknown source '"@ + name + "'"@)
        } else {
            None
        }
}

/// The sources of endpoints are there.
pub struct EndpointSourceRule;

impl NameRule for EndpointSourceRule {
    open spec fn broken(c: AppConfigModel, id: Text) -> spec_fn(Text) -> Option<Text> {
        endpoint_source_error(c, id)
    }

    fn check(cfg: &AppConfig, id: &str, name: &str) -> (error: Option<String>) {
        if cfg.views.contains_key(name) {
            Some(
                cat5(
                    "Endpoint '",
                    id,
                    "' references view '",
                    name,
                    "' \u{2014} output endpoints read cached sources, not views; list the view's member sources instead",
                ),
            )
        } else if !cfg.sources.contains_key(name) {
            Some(cat5("Endpoint '", id, "' references unknown source '", name, "'"))
        } else {
            None
        }
    }
}

/// How the limit of an endpoint is at odds with its sources.
pub open spec fn limit_errors(id: Text, sources: Seq<Text>, limit: Option<EndpointLimitModel>) -> Seq<Text> {
    match limit {
        None => Seq::empty(),
        Some(rules) => match rules.by_hosts_from_inventory {
            None => seq!["Endpoint '"@ + id + "' has an empty limit \u{2014} name a rule, or remove the block"@],
            Some(source_id) => said_if(
                !sources.contains(source_id),
                "Endpoint '"@ + id + "' limits to the hosts of '"@ + source_id
                    + "', which is not one of its source_ids"@,
            ),
        },
    }
}

fn check_limit(id: &str, sources: &Vec<String>, limit: &Option<EndpointLimit>, errors: &mut Vec<String>)
    ensures
        final(errors).deep_view() == old(errors).deep_view() + limit_errors(
            id@,
            sources.deep_view(),
            limit.deep_view(),
        ),
{
    let ghost before = errors.deep_view();
    if let Some(rules) = limit {
        say_if(
            errors,
            rules.is_empty(),
            cat3("Endpoint '", id, "' has an empty limit \u{2014} name a rule, or remove the block").as_str(),
        );
        if let Some(source_id) = &rules.by_hosts_from_inventory {
            say_if(
                errors,
                !contains_string(sources, source_id.as_str()),
                cat5(
                    "Endpoint '",
                    id,
                    "' limits to the hosts of '",
                    source_id.as_str(),
                    "', which is not one of its source_ids",
                ).as_str(),
            );
        }
    }
    assert(errors.deep_view() =~= before + limit_errors(id@, sources.deep_view(), limit.deep_view()));
}

/// How an endpoint is at odds with its sources, or with how it transforms them.
pub open spec fn endpoint_errors(c: AppConfigModel, id: Text, x: OutputEndpointModel) -> Seq<Text> {
    let builtin = x.output is Some && x.script_path is None;
    x.source_ids.filter_map(endpoint_source_error(c, id)) + said_if(
        x.output is Some == x.script_path is Some,
        "Endpoint '"@ + id + "' needs exactly one of output (builtin) or script_path (script)"@,
    ) + said_if(
        builtin && x.project_id is Some,
        "Endpoint '"@ + id + "' sets project_id but runs no script"@,
    ) + said_if(
        builtin && x.timeout_seconds is Some,
        "Endpoint '"@ + id + "' sets timeout_seconds but runs no script"@,
    ) + limit_errors(id, x.source_ids, x.limit)
}

/// Endpoints read sources, in one way, and limit what they return to one of them.
pub struct EndpointRule;

impl Rule<OutputEndpoint> for EndpointRule {
    open spec fn broken(c: AppConfigModel, around: AroundModel, id: Text, x: OutputEndpointModel) -> Seq<Text> {
        endpoint_errors(c, id, x)
    }

    fn check(cfg: &AppConfig, around: &Surroundings, id: &str, x: &OutputEndpoint, errors: &mut Vec<String>) {
        let builtin: bool = x.output.is_some() && x.script_path.is_none();
        let ghost before = errors.deep_view();
        check_names::<EndpointSourceRule>(cfg, id, &x.source_ids, errors);
        say_if(
            errors,
            x.output.is_some() == x.script_path.is_some(),
            cat3("Endpoint '", id, "' needs exactly one of output (builtin) or script_path (script)").as_str(),
        );
        say_if(
            errors,
            builtin && x.project_id.is_some(),
            cat3("Endpoint '", id, "' sets project_id but runs no script").as_str(),
        );
        say_if(
            errors,
            builtin && x.timeout_seconds.is_some(),
            cat3("Endpoint '", id, "' sets timeout_seconds but runs no script").as_str(),
        );
        check_limit(id, &x.source_ids, &x.limit, errors);
        assert(errors.deep_view() =~= before + endpoint_errors(cfg.deep_view(), id@, x.deep_view()));
    }
}

/// The member at position `i` is listed before.
pub open spec fn listed_before(members: Seq<ViewMemberModel>, i: int) -> bool {
    exists|j: int| 0 <= j < i && (#[trigger] members[j]).source == members[i].source
}

/// The member relies on what its source says it covers, and nothing ever will.
pub open spec fn claims_nothing(c: AppConfigModel, member: ViewMemberModel) -> bool {
    &&& member.owns.advertised
    &&& !(c.sources.contains_key(member.source) && c.sources[member.source].connector_type == ConnectorType::Remote)
    &&& !(c.sources.contains_key(member.source) && scope_of(c.sources[member.source]) is Some)
    &&& member.owns.groups.len() == 0
    &&& member.owns.hosts.len() == 0
}

/// What is wrong with the member of a view at position `i`.
pub open spec fn member_errors(c: AppConfigModel, id: Text, members: Seq<ViewMemberModel>, i: int) -> Seq<Text> {
    let member = members[i];
    said_if(
        c.views.contains_key(member.source),
        "View '"@ + id + "' has member '"@ + member.source + "' which is another view \u{2014} views do not nest"@,
    ) + said_if(
        !c.views.contains_key(member.source) && !c.sources.contains_key(member.source),
        "View '"@ + id + "' references unknown source '"@ + member.source + "'"@,
    ) + said_if(
        claims_nothing(c, member),
        "View '"@ + id + "' member '"@ + member.source
            + "' uses advertised ownership, but the source advertises no scope and no fallback groups/hosts are declared \u{2014} the member would claim nothing, ever"@,
    ) + said_if(
        listed_before(members, i),
        "View '"@ + id + "' lists source '"@ + member.source
            + "' twice \u{2014} the second member could never win a host, since the first claim wins"@,
    ) + said_if(
        !c.sources.contains_key(member.owns.source),
        "View '"@ + id + "' member '"@ + member.source + "' resolves ownership against unknown source '"@
            + member.owns.source + "'"@,
    )
}

/// What is wrong with the first `n` members of a view.
pub open spec fn members_errors(c: AppConfigModel, id: Text, members: Seq<ViewMemberModel>, n: int) -> Seq<Text>
    decreases n,
{
    if n <= 0 {
        Seq::empty()
    } else {
        members_errors(c, id, members, n - 1) + member_errors(c, id, members, n - 1)
    }
}

/// What is wrong with a view.
pub open spec fn view_errors(c: AppConfigModel, id: Text, x: ViewModel) -> Seq<Text> {
    said_if(
        c.sources.contains_key(id),
        "View '"@ + id
            + "' has the same id as a source \u{2014} views are served on the source routes, so the ids must not collide"@,
    ) + said_if(x.members.len() == 0, "View '"@ + id + "' has no members"@) + members_errors(
        c,
        id,
        x.members,
        x.members.len() as int,
    )
}

fn member_claims_nothing(cfg: &AppConfig, member: &ViewMember) -> (nothing: bool)
    ensures
        nothing == claims_nothing(cfg.deep_view(), member.deep_view()),
{
    if !member.owns.advertised {
        return false;
    }
    if let Some(source) = cfg.sources.get(member.source.as_str()) {
        if source.connector_type == ConnectorType::Remote || source.advertised_scope().is_some() {
            return false;
        }
    }
    member.owns.groups.is_empty() && member.owns.hosts.is_empty()
}

fn check_member(
    cfg: &AppConfig,
    id: &str,
    members: &Vec<ViewMember>,
    i: usize,
    twice: bool,
    errors: &mut Vec<String>,
)
    requires
        i < members@.len(),
        twice == listed_before(members.deep_view(), i as int),
    ensures
        final(errors).deep_view() == old(errors).deep_view() + member_errors(
            cfg.deep_view(),
            id@,
            members.deep_view(),
            i as int,
        ),
{
    let member: &ViewMember = &members[i];
    let source: &str = member.source.as_str();
    let is_view: bool = cfg.views.contains_key(source);
    let ghost before = errors.deep_view();
    assert(members.deep_view()[i as int] == member.deep_view());
    say_if(
        errors,
        is_view,
        cat5("View '", id, "' has member '", source, "' which is another view \u{2014} views do not nest").as_str(),
    );
    say_if(
        errors,
        !is_view && !cfg.sources.contains_key(source),
        cat5("View '", id, "' references unknown source '", source, "'").as_str(),
    );
    say_if(
        errors,
        member_claims_nothing(cfg, member),
        cat5(
            "View '",
            id,
            "' member '",
            source,
            "' uses advertised ownership, but the source advertises no scope and no fallback groups/hosts are declared \u{2014} the member would claim nothing, ever",
        ).as_str(),
    );
    say_if(
        errors,
        twice,
        cat5(
            "View '",
            id,
            "' lists source '",
            source,
            "' twice \u{2014} the second member could never win a host, since the first claim wins",
        ).as_str(),
    );
    say_if(
        errors,
        !cfg.sources.contains_key(member.owns.source.as_str()),
        cat3(
            cat5("View '", id, "' member '", source, "' resolves ownership against unknown source '").as_str(),
            member.owns.source.as_str(),
            "'",
        ).as_str(),
    );
    assert(errors.deep_view() =~= before + member_errors(cfg.deep_view(), id@, members.deep_view(), i as int));
}

/// Views have members, each of which is a source that is there, once.
pub struct ViewRule;

impl Rule<View> for ViewRule {
    open spec fn broken(c: AppConfigModel, around: AroundModel, id: Text, x: ViewModel) -> Seq<Text> {
        view_errors(c, id, x)
    }

    fn check(cfg: &AppConfig, around: &Surroundings, id: &str, x: &View, errors: &mut Vec<String>) {
        let ghost c = cfg.deep_view();
        let ghost members = x.members.deep_view();
        let ghost before = errors.deep_view();
        say_if(
            errors,
            cfg.sources.contains_key(id),
            cat3(
                "View '",
                id,
                "' has the same id as a source \u{2014} views are served on the source routes, so the ids must not collide",
            ).as_str(),
        );
        say_if(errors, x.members.is_empty(), cat3("View '", id, "' has no members").as_str());
        let ghost so_far = errors.deep_view();
        let mut seen = StrSet::new();
        let mut i: usize = 0;
        assert(errors.deep_view() =~= so_far + members_errors(c, id@, members, 0));
        while i < x.members.len()
            invariant
                i <= x.members@.len(),
                c == cfg.deep_view(),
                members == x.members.deep_view(),
                errors.deep_view() == so_far + members_errors(c, id@, members, i as int),
                forall|s: Text| #[trigger]
                    seen@.contains(s) <==> exists|j: int| 0 <= j < i && (#[trigger] members[j]).source == s,
            decreases x.members@.len() - i,
        {
            let source: &String = &x.members[i].source;
            assert(members[i as int].source == source@);
            let twice: bool = seen.contains(source.as_str());
            check_member(cfg, id, &x.members, i, twice, errors);
            let ghost earlier = seen@;
            seen.insert(source.clone());
            proof {
                assert(errors.deep_view() =~= so_far + members_errors(c, id@, members, i + 1));
                assert forall|s: Text| #[trigger]
                    seen@.contains(s) <==> exists|j: int| 0 <= j < i + 1 && (#[trigger] members[j]).source == s by {
                    if earlier.contains(s) {
                        let j = choose|j: int| 0 <= j < i && (#[trigger] members[j]).source == s;
                        assert(0 <= j < i + 1 && members[j].source == s);
                    }
                    if exists|j: int| 0 <= j < i + 1 && (#[trigger] members[j]).source == s {
                        let j = choose|j: int| 0 <= j < i + 1 && (#[trigger] members[j]).source == s;
                        if j < i {
                            assert(earlier.contains(s));
                        }
                    }
                }
            }
            i += 1;
        }
        assert(errors.deep_view() =~= before + view_errors(c, id@, x.deep_view()));
    }
}

/// A credential of a source that there is not.
pub open spec fn source_credential_error(c: AppConfigModel, id: Text) -> spec_fn(Text) -> Option<Text> {
    |name: Text|
        if !c.credentials.contains_key(name) {
            Some("Source '"@ + id + "' references unknown credential '"@ + name + "'"@)
        } else {
            None
        }
}

/// The credentials of sources are there.
pub struct SourceCredentialRule;

impl NameRule for SourceCredentialRule {
    open spec fn broken(c: AppConfigModel, id: Text) -> spec_fn(Text) -> Option<Text> {
        source_credential_error(c, id)
    }

    fn check(cfg: &AppConfig, id: &str, name: &str) -> (error: Option<String>) {
        if !cfg.credentials.contains_key(name) {
            Some(cat5("Source '", id, "' references unknown credential '", name, "'"))
        } else {
            None
        }
    }
}

impl Rule<Source> for SourceCredentialRule {
    open spec fn broken(c: AppConfigModel, around: AroundModel, id: Text, x: SourceModel) -> Seq<Text> {
        x.credential_ids.filter_map(source_credential_error(c, id))
    }

    fn check(cfg: &AppConfig, around: &Surroundings, id: &str, x: &Source, errors: &mut Vec<String>) {
        check_names::<SourceCredentialRule>(cfg, id, &x.credential_ids, errors);
    }
}

/// The projects of sources are there.
pub struct SourceProjectRule;

impl Rule<Source> for SourceProjectRule {
    open spec fn broken(c: AppConfigModel, around: AroundModel, id: Text, x: SourceModel) -> Seq<Text> {
        said_if(
            !c.projects.contains_key(x.project_id),
            "Source '"@ + id + "' references unknown project '"@ + x.project_id + "'"@,
        )
    }

    fn check(cfg: &AppConfig, around: &Surroundings, id: &str, x: &Source, errors: &mut Vec<String>) {
        say_if(
            errors,
            !cfg.projects.contains_key(x.project_id.as_str()),
            cat5("Source '", id, "' references unknown project '", x.project_id.as_str(), "'").as_str(),
        );
    }
}

/// What is wrong with where a source has its hosts from.
pub open spec fn hosts_from_errors(c: AppConfigModel, id: Text, x: SourceModel) -> Seq<Text> {
    match x.hosts_from_source {
        None => Seq::empty(),
        Some(from) => said_if(
            x.connector_type != ConnectorType::Ssh,
            "Source '"@ + id + "' sets hosts_from_source but is not an ssh source"@,
        ) + said_if(from.source == id, "Source '"@ + id + "' cannot use itself as hosts_from_source"@) + said_if(
            from.source != id && !c.sources.contains_key(from.source),
            "Source '"@ + id + "' references unknown source '"@ + from.source + "' in hosts_from_source"@,
        ) + said_if(
            x.config.contains_key("hosts"@),
            "Source '"@ + id + "' sets both config.hosts and hosts_from_source \u{2014} pick one"@,
        ),
    }
}

/// Only an SSH source has its hosts from elsewhere: from another source, and from
/// nowhere else.
pub struct HostsFromRule;

impl Rule<Source> for HostsFromRule {
    open spec fn broken(c: AppConfigModel, around: AroundModel, id: Text, x: SourceModel) -> Seq<Text> {
        hosts_from_errors(c, id, x)
    }

    fn check(cfg: &AppConfig, around: &Surroundings, id: &str, x: &Source, errors: &mut Vec<String>) {
        let ghost before = errors.deep_view();
        if let Some(from) = &x.hosts_from_source {
            let itself: bool = str_eq(from.source.as_str(), id);
            say_if(
                errors,
                x.connector_type != ConnectorType::Ssh,
                cat3("Source '", id, "' sets hosts_from_source but is not an ssh source").as_str(),
            );
            say_if(errors, itself, cat3("Source '", id, "' cannot use itself as hosts_from_source").as_str());
            say_if(
                errors,
                !itself && !cfg.sources.contains_key(from.source.as_str()),
                cat5(
                    "Source '",
                    id,
                    "' references unknown source '",
                    from.source.as_str(),
                    "' in hosts_from_source",
                ).as_str(),
            );
            say_if(
                errors,
                x.config.contains_key("hosts"),
                cat3("Source '", id, "' sets both config.hosts and hosts_from_source \u{2014} pick one").as_str(),
            );
        }
        assert(errors.deep_view() =~= before + hosts_from_errors(cfg.deep_view(), id@, x.deep_view()));
    }
}

/// A source that says what it covers covers something.
pub struct ScopeRule;

impl Rule<Source> for ScopeRule {
    open spec fn broken(c: AppConfigModel, around: AroundModel, id: Text, x: SourceModel) -> Seq<Text> {
        said_if(
            x.advertise_scope matches Some(scope) && scope.groups.len() == 0 && scope.hosts.len() == 0,
            "Source '"@ + id
                + "' has an empty advertise_scope \u{2014} name at least one                      group or host, or remove the block"@,
        )
    }

    fn check(cfg: &AppConfig, around: &Surroundings, id: &str, x: &Source, errors: &mut Vec<String>) {
        let empty: bool = match &x.advertise_scope {
            Some(scope) => scope.groups.is_empty() && scope.hosts.is_empty(),
            None => false,
        };
        say_if(
            errors,
            empty,
            cat3(
                "Source '",
                id,
                "' has an empty advertise_scope \u{2014} name at least one                      group or host, or remove the block",
            ).as_str(),
        );
    }
}

/// What is wrong with when something runs by itself.
pub open spec fn schedule_errors(
    what: Text,
    id: Text,
    schedule: Option<Text>,
    interval: Option<u64>,
    crons: Map<Text, Text>,
) -> Seq<Text> {
    match schedule {
        None => Seq::empty(),
        Some(expression) => said_if(
            crons.contains_key(expression),
            what + " '"@ + id + "' has an invalid cron schedule '"@ + expression + "': "@ + crons[expression],
        ) + said_if(
            interval matches Some(seconds) && seconds > 0,
            what + " '"@ + id + "' sets both schedule and sync_interval_seconds \u{2014} pick one"@,
        ),
    }
}

fn check_schedule(
    what: &str,
    id: &str,
    schedule: &Option<String>,
    interval: Option<u64>,
    around: &Surroundings,
    errors: &mut Vec<String>,
)
    ensures
        final(errors).deep_view() == old(errors).deep_view() + schedule_errors(
            what@,
            id@,
            schedule.deep_view(),
            interval,
            around.deep_view().invalid_crons,
        ),
{
    let ghost before = errors.deep_view();
    let ghost crons = around.deep_view().invalid_crons;
    if let Some(expression) = schedule {
        let ghost expr = expression@;
        if let Some(wrong) = around.invalid_crons.get(expression.as_str()) {
            let error = cat5(
                cat2(what, " '").as_str(),
                id,
                "' has an invalid cron schedule '",
                expression.as_str(),
                "': ",
            );
            say_if(errors, true, cat2(error.as_str(), wrong.as_str()).as_str());
        }
        assert(errors.deep_view() =~= before + said_if(
            crons.contains_key(expr),
            what@ + " '"@ + id@ + "' has an invalid cron schedule '"@ + expr + "': "@ + crons[expr],
        ));
        let both: bool = match interval {
            Some(seconds) => seconds > 0,
            None => false,
        };
        say_if(
            errors,
            both,
            cat3(
                cat2(what, " '").as_str(),
                id,
                "' sets both schedule and sync_interval_seconds \u{2014} pick one",
            ).as_str(),
        );
    }
    assert(errors.deep_view() =~= before + schedule_errors(what@, id@, schedule.deep_view(), interval, crons));
}

/// What runs by a schedule has a valid one, and no interval.
pub struct ScheduleRule;

impl Rule<Source> for ScheduleRule {
    open spec fn broken(c: AppConfigModel, around: AroundModel, id: Text, x: SourceModel) -> Seq<Text> {
        schedule_errors("Source"@, id, x.schedule, x.sync_interval_seconds, around.invalid_crons)
    }

    fn check(cfg: &AppConfig, around: &Surroundings, id: &str, x: &Source, errors: &mut Vec<String>) {
        check_schedule("Source", id, &x.schedule, x.sync_interval_seconds, around, errors);
    }
}

impl Rule<Enricher> for ScheduleRule {
    open spec fn broken(c: AppConfigModel, around: AroundModel, id: Text, x: EnricherModel) -> Seq<Text> {
        schedule_errors("Enricher"@, id, x.schedule, x.sync_interval_seconds, around.invalid_crons)
    }

    fn check(cfg: &AppConfig, around: &Surroundings, id: &str, x: &Enricher, errors: &mut Vec<String>) {
        check_schedule("Enricher", id, &x.schedule, x.sync_interval_seconds, around, errors);
    }
}

impl Rule<GitProject> for ScheduleRule {
    open spec fn broken(c: AppConfigModel, around: AroundModel, id: Text, x: GitProjectModel) -> Seq<Text> {
        schedule_errors("Project"@, id, x.schedule, x.sync_interval_seconds, around.invalid_crons)
    }

    fn check(cfg: &AppConfig, around: &Surroundings, id: &str, x: &GitProject, errors: &mut Vec<String>) {
        check_schedule("Project", id, &x.schedule, x.sync_interval_seconds, around, errors);
    }
}

/// What is wrong with the known hosts of a source.
pub open spec fn known_hosts_errors(id: Text, x: SourceModel, files: Set<Text>) -> Seq<Text> {
    if !x.config.contains_key("ssh_known_hosts"@) {
        Seq::empty()
    } else if x.connector_type != ConnectorType::Ssh {
        seq!["Source '"@ + id + "' sets ssh_known_hosts but is not an ssh source"@]
    } else {
        let path = x.config["ssh_known_hosts"@];
        said_if(
            !files.contains(path),
            "Source '"@ + id + "': ssh_known_hosts file '"@ + path + "' does not exist"@,
        )
    }
}

/// Only an SSH source has known hosts, in a file that is there.
pub struct KnownHostsRule;

impl Rule<Source> for KnownHostsRule {
    open spec fn broken(c: AppConfigModel, around: AroundModel, id: Text, x: SourceModel) -> Seq<Text> {
        known_hosts_errors(id, x, around.files)
    }

    fn check(cfg: &AppConfig, around: &Surroundings, id: &str, x: &Source, errors: &mut Vec<String>) {
        let ghost before = errors.deep_view();
        if let Some(path) = x.config.get("ssh_known_hosts") {
            if x.connector_type != ConnectorType::Ssh {
                say_if(
                    errors,
                    true,
                    cat3("Source '", id, "' sets ssh_known_hosts but is not an ssh source").as_str(),
                );
            } else {
                say_if(
                    errors,
                    !around.files.contains(path.as_str()),
                    cat5("Source '", id, "': ssh_known_hosts file '", path.as_str(), "' does not exist").as_str(),
                );
            }
        }
        assert(errors.deep_view() =~= before + known_hosts_errors(id@, x.deep_view(), around.deep_view().files));
    }
}

/// A remote source has an address.
pub struct RemoteRule;

impl Rule<Source> for RemoteRule {
    open spec fn broken(c: AppConfigModel, around: AroundModel, id: Text, x: SourceModel) -> Seq<Text> {
        said_if(
            x.connector_type == ConnectorType::Remote && !x.config.contains_key("url"@),
            "Source '"@ + id + "' is a remote source but has no 'url' in config"@,
        )
    }

    fn check(cfg: &AppConfig, around: &Surroundings, id: &str, x: &Source, errors: &mut Vec<String>) {
        say_if(
            errors,
            x.connector_type == ConnectorType::Remote && !x.config.contains_key("url"),
            cat3("Source '", id, "' is a remote source but has no 'url' in config").as_str(),
        );
    }
}

/// A project that is named but not there.
pub open spec fn unknown_project_errors(c: AppConfigModel, what: Text, id: Text, project: Option<Text>) -> Seq<Text> {
    match project {
        None => Seq::empty(),
        Some(project_id) => said_if(
            !c.projects.contains_key(project_id),
            what + " '"@ + id + "' references unknown project '"@ + project_id + "'"@,
        ),
    }
}

fn check_project(cfg: &AppConfig, what: &str, id: &str, project: &Option<String>, errors: &mut Vec<String>)
    ensures
        final(errors).deep_view() == old(errors).deep_view() + unknown_project_errors(
            cfg.deep_view(),
            what@,
            id@,
            project.deep_view(),
        ),
{
    let ghost before = errors.deep_view();
    if let Some(project_id) = project {
        say_if(
            errors,
            !cfg.projects.contains_key(project_id.as_str()),
            cat5(
                cat2(what, " '").as_str(),
                id,
                "' references unknown project '",
                project_id.as_str(),
                "'",
            ).as_str(),
        );
    }
    assert(errors.deep_view() =~= before + unknown_project_errors(
        cfg.deep_view(),
        what@,
        id@,
        project.deep_view(),
    ));
}

/// The projects of scripts are there.
pub struct ScriptProjectRule;

impl Rule<Enricher> for ScriptProjectRule {
    open spec fn broken(c: AppConfigModel, around: AroundModel, id: Text, x: EnricherModel) -> Seq<Text> {
        unknown_project_errors(c, "Enricher"@, id, x.project_id)
    }

    fn check(cfg: &AppConfig, around: &Surroundings, id: &str, x: &Enricher, errors: &mut Vec<String>) {
        check_project(cfg, "Enricher", id, &x.project_id, errors);
    }
}

impl Rule<OutputEndpoint> for ScriptProjectRule {
    open spec fn broken(c: AppConfigModel, around: AroundModel, id: Text, x: OutputEndpointModel) -> Seq<Text> {
        unknown_project_errors(c, "Endpoint"@, id, x.project_id)
    }

    fn check(cfg: &AppConfig, around: &Surroundings, id: &str, x: &OutputEndpoint, errors: &mut Vec<String>) {
        check_project(cfg, "Endpoint", id, &x.project_id, errors);
    }
}

/// A source that a key opens, and that there is not.
pub open spec fn key_source_error(c: AppConfigModel, id: Text) -> spec_fn(Text) -> Option<Text> {
    |name: Text|
        if !c.sources.contains_key(name) && !c.views.contains_key(name) {
            Some("API key '"@ + id + "' references unknown source or view '"@ + name + "'"@)
        } else {
            None
        }
}

/// An endpoint that a key opens, and that there is not.
pub open spec fn key_endpoint_error(c: AppConfigModel, id: Text) -> spec_fn(Text) -> Option<Text> {
    |name: Text|
        if !c.endpoints.contains_key(name) {
            Some("API key '"@ + id + "' references unknown endpoint '"@ + name + "'"@)
        } else {
            None
        }
}

/// What is wrong with what a restricted key opens.
pub open spec fn key_errors(c: AppConfigModel, id: Text, x: ApiKeyDefModel) -> Seq<Text> {
    if x.role == ApiKeyRole::Restricted {
        x.sources.filter_map(key_source_error(c, id)) + x.endpoints.filter_map(key_endpoint_error(c, id))
    } else {
        Seq::empty()
    }
}

/// The sources and views that a key opens are there.
pub struct KeySourceRule;

impl NameRule for KeySourceRule {
    open spec fn broken(c: AppConfigModel, id: Text) -> spec_fn(Text) -> Option<Text> {
        key_source_error(c, id)
    }

    fn check(cfg: &AppConfig, id: &str, name: &str) -> (error: Option<String>) {
        if !cfg.sources.contains_key(name) && !cfg.views.contains_key(name) {
            Some(cat5("API key '", id, "' references unknown source or view '", name, "'"))
        } else {
            None
        }
    }
}

/// The endpoints that a key opens are there.
pub struct KeyEndpointRule;

impl NameRule for KeyEndpointRule {
    open spec fn broken(c: AppConfigModel, id: Text) -> spec_fn(Text) -> Option<Text> {
        key_endpoint_error(c, id)
    }

    fn check(cfg: &AppConfig, id: &str, name: &str) -> (error: Option<String>) {
        if !cfg.endpoints.contains_key(name) {
            Some(cat5("API key '", id, "' references unknown endpoint '", name, "'"))
        } else {
            None
        }
    }
}

/// What a restricted key opens is there.
pub struct KeyRule;

impl Rule<ApiKeyDef> for KeyRule {
    open spec fn broken(c: AppConfigModel, around: AroundModel, id: Text, x: ApiKeyDefModel) -> Seq<Text> {
        key_errors(c, id, x)
    }

    fn check(cfg: &AppConfig, around: &Surroundings, id: &str, x: &ApiKeyDef, errors: &mut Vec<String>) {
        let ghost before = errors.deep_view();
        if x.role == ApiKeyRole::Restricted {
            check_names::<KeySourceRule>(cfg, id, &x.sources, errors);
            check_names::<KeyEndpointRule>(cfg, id, &x.endpoints, errors);
        }
        assert(errors.deep_view() =~= before + key_errors(cfg.deep_view(), id@, x.deep_view()));
    }
}

/// A path into a Vault needs a Vault.
pub struct VaultRule;

impl Rule<Credential> for VaultRule {
    open spec fn broken(c: AppConfigModel, around: AroundModel, id: Text, x: CredentialModel) -> Seq<Text> {
        said_if(
            c.secrets_config.vault is None && x.vault_path is Some,
            "Credential '"@ + id
                + "' sets vault_path but config.yaml has no secrets.vault block to resolve it against"@,
        )
    }

    fn check(cfg: &AppConfig, around: &Surroundings, id: &str, x: &Credential, errors: &mut Vec<String>) {
        say_if(
            errors,
            cfg.secrets_config.vault.is_none() && x.vault_path.is_some(),
            cat3(
                "Credential '",
                id,
                "' sets vault_path but config.yaml has no secrets.vault block to resolve it against",
            ).as_str(),
        );
    }
}

/// What is wrong with the credential of a project.
pub open spec fn project_credential_errors(c: AppConfigModel, id: Text, x: GitProjectModel) -> Seq<Text> {
    match x.credential_id {
        None => Seq::empty(),
        Some(credential_id) => said_if(
            !c.credentials.contains_key(credential_id),
            "Project '"@ + id + "' references unknown credential '"@ + credential_id + "'"@,
        ),
    }
}

/// The credentials of projects are there.
pub struct ProjectCredentialRule;

impl Rule<GitProject> for ProjectCredentialRule {
    open spec fn broken(c: AppConfigModel, around: AroundModel, id: Text, x: GitProjectModel) -> Seq<Text> {
        project_credential_errors(c, id, x)
    }

    fn check(cfg: &AppConfig, around: &Surroundings, id: &str, x: &GitProject, errors: &mut Vec<String>) {
        let ghost before = errors.deep_view();
        if let Some(credential_id) = &x.credential_id {
            say_if(
                errors,
                !cfg.credentials.contains_key(credential_id.as_str()),
                cat5("Project '", id, "' references unknown credential '", credential_id.as_str(), "'").as_str(),
            );
        }
        assert(errors.deep_view() =~= before + project_credential_errors(cfg.deep_view(), id@, x.deep_view()));
    }
}

/// Everything that is wrong with a configuration.
pub open spec fn config_errors(c: AppConfigModel, around: AroundModel) -> Seq<Text> {
    broken_in::<Enricher, EnricherRule>(c, around, c.enrichers)
        + broken_in::<OutputEndpoint, EndpointRule>(c, around, c.endpoints)
        + broken_in::<View, ViewRule>(c, around, c.views)
        + broken_in::<Source, SourceCredentialRule>(c, around, c.sources)
        + broken_in::<Source, SourceProjectRule>(c, around, c.sources)
        + broken_in::<Source, HostsFromRule>(c, around, c.sources)
        + broken_in::<Source, ScopeRule>(c, around, c.sources)
        + broken_in::<Source, ScheduleRule>(c, around, c.sources)
        + broken_in::<Enricher, ScheduleRule>(c, around, c.enrichers)
        + broken_in::<GitProject, ScheduleRule>(c, around, c.projects)
        + broken_in::<Source, KnownHostsRule>(c, around, c.sources)
        + broken_in::<Source, RemoteRule>(c, around, c.sources)
        + broken_in::<Enricher, ScriptProjectRule>(c, around, c.enrichers)
        + broken_in::<OutputEndpoint, ScriptProjectRule>(c, around, c.endpoints)
        + broken_in::<ApiKeyDef, KeyRule>(c, around, c.api_keys)
        + broken_in::<Credential, VaultRule>(c, around, c.credentials)
        + broken_in::<GitProject, ProjectCredentialRule>(c, around, c.projects)
}

/// The errors in one text.
pub open spec fn errors_text(errors: Seq<Text>) -> Text {
    "Configuration errors:\n  - "@ + join_text(errors, "\n  - "@)
}

impl AppConfig {
    /// Whether the configuration is consistent; where it is not, everything that
    /// is wrong with it, in one text.
    pub fn validate(&self, around: &Surroundings) -> (r: Result<(), String>)
        ensures
            match r {
                Ok(()) => config_errors(self.deep_view(), around.deep_view()).len() == 0,
                Err(e) => config_errors(self.deep_view(), around.deep_view()).len() > 0 && e@ == errors_text(
                    config_errors(self.deep_view(), around.deep_view()),
                ),
            },
    {
        let mut errors: Vec<String> = Vec::new();
        check_every::<Enricher, EnricherRule>(self, around, &self.enrichers, &mut errors);
        check_every::<OutputEndpoint, EndpointRule>(self, around, &self.endpoints, &mut errors);
        check_every::<View, ViewRule>(self, around, &self.views, &mut errors);
        check_every::<Source, SourceCredentialRule>(self, around, &self.sources, &mut errors);
        check_every::<Source, SourceProjectRule>(self, around, &self.sources, &mut errors);
        check_every::<Source, HostsFromRule>(self, around, &self.sources, &mut errors);
        check_every::<Source, ScopeRule>(self, around, &self.sources, &mut errors);
        check_every::<Source, ScheduleRule>(self, around, &self.sources, &mut errors);
        check_every::<Enricher, ScheduleRule>(self, around, &self.enrichers, &mut errors);
        check_every::<GitProject, ScheduleRule>(self, around, &self.projects, &mut errors);
        check_every::<Source, KnownHostsRule>(self, around, &self.sources, &mut errors);
        check_every::<Source, RemoteRule>(self, around, &self.sources, &mut errors);
        check_every::<Enricher, ScriptProjectRule>(self, around, &self.enrichers, &mut errors);
        check_every::<OutputEndpoint, ScriptProjectRule>(self, around, &self.endpoints, &mut errors);
        check_every::<ApiKeyDef, KeyRule>(self, around, &self.api_keys, &mut errors);
        check_every::<Credential, VaultRule>(self, around, &self.credentials, &mut errors);
        check_every::<GitProject, ProjectCredentialRule>(self, around, &self.projects, &mut errors);
        proof {
            assert(errors.deep_view() =~= config_errors(self.deep_view(), around.deep_view()));
            assert(errors.deep_view().len() == errors@.len());
        }
        if errors.len() == 0 {
            Ok(())
        } else {
            Err(cat2("Configuration errors:\n  - ", join(&errors, "\n  - ").as_str()))
        }
    }
}

} // verus!
