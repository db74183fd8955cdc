//! Roles: sorting them into groups, dealing them for a game, creating and
//! updating them.
use vstd::prelude::*;
use vstd::string::*;
use rand::seq::{IndexedRandom, SliceRandom};
use crate::dto::{
    copy_opt_text, distribution_for, opt_text, role_ids, roles_view, RoleAssignment,
    RoleCreateRequest, RoleDistribution, RoleResponse, RoleUpdateRequest, RoleView, RolesByType,
};
use crate::ids::{is_v4_id, new_v4_id};
use crate::models::RoleType;
use crate::text::{decimal, decimal_text, lowercase, to_lowercase};

verus! {

/// The slug that marks the plain citizen role.
pub open spec fn villager_slug() -> Seq<char> {
    seq!['v', 'i', 'l', 'l', 'a', 'g', 'e', 'r']
}

/// Beasts form the first group.
pub open spec fn is_beast(r: RoleView) -> bool {
    r.role_type == RoleType::Beast
}

/// Citizens whose slug reads "villager" in any case form the second group.
pub open spec fn is_villager(r: RoleView) -> bool {
    r.role_type == RoleType::Citizen && lowercase(r.slug) == villager_slug()
}

/// Every other role is special: citizens with another slug, and neutrals.
pub open spec fn is_special(r: RoleView) -> bool {
    !is_beast(r) && !is_villager(r)
}

/// `n` copies of `x`.
pub open spec fn copies(x: u128, n: int) -> Seq<u128> {
    Seq::new(n as nat, |i: int| x)
}

/// The size of the special sample: as many specials as the distribution asks
/// for, as far as there are specials.
pub open spec fn special_sample_size(wanted: int, available: int) -> int {
    if wanted < available { wanted } else { available }
}

/// The roles of a deal before shuffling: the first beast for every beast
/// seat, the first villager for every citizen seat, then the sampled specials.
pub open spec fn deal_of(beast: u128, citizen: u128, d: (int, int, int), specials: Seq<u128>) -> Seq<u128> {
    copies(beast, d.0) + copies(citizen, d.1) + specials
}

/// Whether `v` is a shuffled deal for the grouped roles and distribution:
/// a permutation of the first beast and first villager, repeated as the
/// distribution asks, together with a sample of distinct specials of the
/// right size.
pub open spec fn is_shuffled_deal(v: Seq<u128>, roles: (Seq<RoleView>, Seq<RoleView>, Seq<RoleView>), d: (int, int, int)) -> bool {
    exists|chosen: Seq<u128>|
        #![trigger chosen.to_multiset()]
        chosen.len() == special_sample_size(d.2, roles.2.len() as int)
        && chosen.to_multiset().subset_of(role_ids(roles.2).to_multiset())
        && v.to_multiset() == deal_of(roles.0[0].id, roles.1[0].id, d, chosen).to_multiset()
}

/// Calls `IndexedRandom::choose_multiple` on the roles with `rand::rng()` and
/// keeps the ids of the chosen roles. Which roles come out is random; rand's
/// documentation and source show that `min(amount, len)` of them come out,
/// drawn at distinct positions, so their ids are a sub-multiset of the roles'
/// ids. Their order is left open.
#[verifier::external_body]
fn choose_multiple_role_ids(roles: &Vec<RoleResponse>, amount: usize) -> (r: Vec<u128>)
    ensures
        r@.len() == special_sample_size(amount as int, roles@.len() as int),
        r@.to_multiset().subset_of(role_ids(roles_view(roles@)).to_multiset()),
{
    let mut rng = rand::rng();
    roles.choose_multiple(&mut rng, amount).map(|role| role.id).collect()
}

/// Calls `SliceRandom::shuffle` with `rand::rng()`: the result is a
/// permutation of the input, which permutation is random.
#[verifier::external_body]
fn shuffle_ids(v: &mut Vec<u128>)
    ensures
        final(v)@.len() == old(v)@.len(),
        final(v)@.to_multiset() == old(v)@.to_multiset(),
{
    let mut rng = rand::rng();
    v.shuffle(&mut rng);
}

/// Sorts roles into beasts, villagers and specials, keeping their order.
pub fn group_roles_by_type(roles: Vec<RoleResponse>) -> (g: RolesByType)
    ensures
        roles_view(g.beasts@) == roles_view(roles@).filter(|r: RoleView| is_beast(r)),
        roles_view(g.citizens@) == roles_view(roles@).filter(|r: RoleView| is_villager(r)),
        roles_view(g.special@) == roles_view(roles@).filter(|r: RoleView| is_special(r)),
{
    let ghost all = roles_view(roles@);
    let mut beasts: Vec<RoleResponse> = Vec::new();
    let mut citizens: Vec<RoleResponse> = Vec::new();
    let mut special: Vec<RoleResponse> = Vec::new();
    let villager = String::from_str("villager");
    proof {
        reveal_strlit("villager");
        assert(villager@ =~= villager_slug());
    }
    let n = roles.len();
    let mut i: usize = 0;
    while i < n
        invariant
            n == roles@.len(),
            all == roles_view(roles@),
            villager@ == villager_slug(),
            0 <= i <= n,
            roles_view(beasts@) == all.take(i as int).filter(|r: RoleView| is_beast(r)),
            roles_view(citizens@) == all.take(i as int).filter(|r: RoleView| is_villager(r)),
            roles_view(special@) == all.take(i as int).filter(|r: RoleView| is_special(r)),
        decreases n - i,
    {
        let role = &roles[i];
        let ghost b0 = roles_view(beasts@);
        let ghost c0 = roles_view(citizens@);
        let ghost s0 = roles_view(special@);
        let ghost rv = all[i as int];
        assert(role@ == rv);
        match role.role_type {
            RoleType::Beast => {
                beasts.push(role.duplicate());
            },
            RoleType::Citizen => {
                let slug = to_lowercase(role.slug.as_str());
                if slug == villager {
                    citizens.push(role.duplicate());
                } else {
                    special.push(role.duplicate());
                }
            },
            RoleType::Neutral => {
                special.push(role.duplicate());
            },
        }
        proof {
            reveal(Seq::filter);
            assert(all.take(i + 1).drop_last() =~= all.take(i as int));
            assert(all.take(i + 1).last() == rv);
            if is_beast(rv) {
                assert(roles_view(beasts@) =~= b0.push(rv));
                assert(roles_view(citizens@) =~= c0);
                assert(roles_view(special@) =~= s0);
            } else if is_villager(rv) {
                assert(roles_view(beasts@) =~= b0);
                assert(roles_view(citizens@) =~= c0.push(rv));
                assert(roles_view(special@) =~= s0);
            } else {
                assert(roles_view(beasts@) =~= b0);
                assert(roles_view(citizens@) =~= c0);
                assert(roles_view(special@) =~= s0.push(rv));
            }
        }
        i = i + 1;
    }
    assert(all.take(n as int) =~= all);
    RolesByType { beasts, citizens, special }
}

/// The three groups of a grouping, as views.
pub open spec fn groups_view(g: &RolesByType) -> (Seq<RoleView>, Seq<RoleView>, Seq<RoleView>) {
    (roles_view(g.beasts@), roles_view(g.citizens@), roles_view(g.special@))
}

/// Appends `n` copies of `x` to `v`.
fn push_copies(v: &mut Vec<u128>, x: u128, n: usize)
    ensures
        final(v)@ == old(v)@ + copies(x, n as int),
{
    let ghost start = v@;
    let mut i: usize = 0;
    while i < n
        invariant
            0 <= i <= n,
            v@ == start + copies(x, i as int),
        decreases n - i,
    {
        v.push(x);
        assert(v@ =~= start + copies(x, i + 1));
        i = i + 1;
    }
}

/// Deals the roles for the given sample of specials, before shuffling: no
/// beast or no villager among the roles is an error, else the first beast
/// fills every beast seat, the first villager every citizen seat, and the
/// sampled specials follow.
pub fn deal_roles(roles: &RolesByType, distribution: &RoleDistribution, chosen_specials: Vec<u128>) -> (r: Result<Vec<u128>, String>)
    ensures
        roles.beasts@.len() == 0 ==> r is Err && r->Err_0@ == "No beasts available"@,
        roles.beasts@.len() > 0 && roles.citizens@.len() == 0 ==> r is Err && r->Err_0@
            == "No citizens available"@,
        roles.beasts@.len() > 0 && roles.citizens@.len() > 0 ==> r is Ok && r->Ok_0@ == deal_of(
            roles.beasts@[0].id,
            roles.citizens@[0].id,
            distribution.counts(),
            chosen_specials@,
        ),
{
    if roles.beasts.len() == 0 {
        return Err(String::from_str("No beasts available"));
    }
    let mut selected: Vec<u128> = Vec::new();
    push_copies(&mut selected, roles.beasts[0].id, distribution.beast_count);
    if roles.citizens.len() == 0 {
        return Err(String::from_str("No citizens available"));
    }
    push_copies(&mut selected, roles.citizens[0].id, distribution.citizen_count);
    let ghost before = selected@;
    let mut chosen = chosen_specials;
    selected.append(&mut chosen);
    assert(selected@ =~= deal_of(roles.beasts@[0].id, roles.citizens@[0].id, distribution.counts(), chosen_specials@));
    Ok(selected)
}

/// Picks the roles of a game: errors as `deal_roles` does, else a random
/// sample of distinct specials joins the beasts and villagers, and the whole
/// deal is shuffled.
pub fn select_roles_for_game(roles: RolesByType, distribution: RoleDistribution) -> (r: Result<Vec<u128>, String>)
    ensures
        roles.beasts@.len() == 0 ==> r is Err && r->Err_0@ == "No beasts available"@,
        roles.beasts@.len() > 0 && roles.citizens@.len() == 0 ==> r is Err && r->Err_0@
            == "No citizens available"@,
        roles.beasts@.len() > 0 && roles.citizens@.len() > 0 ==> r is Ok && is_shuffled_deal(
            r->Ok_0@,
            groups_view(&roles),
            distribution.counts(),
        ),
{
    let amount = if distribution.special_count < roles.special.len() {
        distribution.special_count
    } else {
        roles.special.len()
    };
    let chosen = choose_multiple_role_ids(&roles.special, amount);
    let ghost chosen_view = chosen@;
    match deal_roles(&roles, &distribution, chosen) {
        Ok(mut selected) => {
            let ghost unshuffled = selected@;
            shuffle_ids(&mut selected);
            proof {
                let g = groups_view(&roles);
                assert(g.0[0].id == roles.beasts@[0].id);
                assert(g.1[0].id == roles.citizens@[0].id);
                assert(chosen_view.len() == special_sample_size(distribution.counts().2, g.2.len() as int));
                assert(selected@.to_multiset() == deal_of(g.0[0].id, g.1[0].id, distribution.counts(), chosen_view).to_multiset());
            }
            Ok(selected)
        },
        Err(e) => Err(e),
    }
}

/// The total number of roles a deal hands out.
pub open spec fn deal_size(d: (int, int, int), specials_available: int) -> int {
    d.0 + d.1 + special_sample_size(d.2, specials_available)
}

/// With three to fourteen players and at least as many specials as the table
/// asks for, a deal hands out exactly one role per player, so dealing can
/// only fail for want of a beast or a villager.
pub proof fn lemma_deal_fits_players(count: int, specials_available: int)
    requires
        3 <= count <= 14,
        specials_available >= distribution_for(count).2,
    ensures
        deal_size(distribution_for(count), specials_available) == count,
{
}

/// Whether `a` pairs each of `players`, in order, with the role at the same
/// position of `selected`.
pub open spec fn pairs_in_order(a: Seq<RoleAssignment>, players: Seq<u128>, selected: Seq<u128>) -> bool {
    &&& a.len() == players.len()
    &&& a.len() == selected.len()
    &&& forall|i: int| 0 <= i < a.len() ==> #[trigger] a[i].player_id == players[i] && a[i].role_id == selected[i]
}

/// The error for a deal whose size does not match the number of players.
pub open spec fn count_mismatch_text(selected: nat, players: nat) -> Seq<char> {
    "Role count "@ + decimal(selected) + " does not match player count "@ + decimal(players)
}

/// Writes the error for a deal whose size does not match the number of players.
fn count_mismatch_message(selected: usize, players: usize) -> (s: String)
    ensures
        s@ == count_mismatch_text(selected as nat, players as nat),
{
    let s = String::from_str("Role count ");
    let s = s.concat(decimal_text(selected).as_str());
    let s = s.concat(" does not match player count ");
    s.concat(decimal_text(players).as_str())
}

/// Pairs players with the selected roles, first with first: a deal of
/// another size than the table is an error.
pub fn pair_roles(player_ids: Vec<u128>, selected: Vec<u128>) -> (r: Result<Vec<RoleAssignment>, String>)
    ensures
        selected@.len() != player_ids@.len() ==> r is Err && r->Err_0@ == count_mismatch_text(
            selected@.len(),
            player_ids@.len(),
        ),
        selected@.len() == player_ids@.len() ==> r is Ok && pairs_in_order(r->Ok_0@, player_ids@, selected@),
{
    if selected.len() != player_ids.len() {
        return Err(count_mismatch_message(selected.len(), player_ids.len()));
    }
    let mut out: Vec<RoleAssignment> = Vec::new();
    let n = player_ids.len();
    let mut i: usize = 0;
    while i < n
        invariant
            n == player_ids@.len(),
            n == selected@.len(),
            0 <= i <= n,
            out@.len() == i,
            forall|j: int| 0 <= j < i ==> #[trigger] out@[j].player_id == player_ids@[j] && out@[j].role_id == selected@[j],
        decreases n - i,
    {
        out.push(RoleAssignment { player_id: player_ids[i], role_id: selected[i] });
        i = i + 1;
    }
    Ok(out)
}

/// What dealing the roles `all` to the players `players` may give: no beast
/// and no villager are errors, as is a deal whose size differs from the
/// number of players; otherwise each player, in order, gets the role at the
/// same position of a shuffled deal.
pub open spec fn assign_roles_outcome(all: Seq<RoleView>, players: Seq<u128>, r: Result<Seq<RoleAssignment>, Seq<char>>) -> bool {
    let beasts = all.filter(|x: RoleView| is_beast(x));
    let villagers = all.filter(|x: RoleView| is_villager(x));
    let specials = all.filter(|x: RoleView| is_special(x));
    let d = distribution_for(players.len() as int);
    &&& beasts.len() == 0 ==> r == Err::<Seq<RoleAssignment>, Seq<char>>("No beasts available"@)
    &&& beasts.len() > 0 && villagers.len() == 0 ==> r == Err::<Seq<RoleAssignment>, Seq<char>>("No citizens available"@)
    &&& beasts.len() > 0 && villagers.len() > 0 && deal_size(d, specials.len() as int) != players.len()
        ==> r == Err::<Seq<RoleAssignment>, Seq<char>>(count_mismatch_text(
            deal_size(d, specials.len() as int) as nat,
            players.len(),
        ))
    &&& beasts.len() > 0 && villagers.len() > 0 && deal_size(d, specials.len() as int) == players.len()
        ==> r is Ok && exists|v: Seq<u128>| #[trigger] is_shuffled_deal(v, (beasts, villagers, specials), d)
            && pairs_in_order(r->Ok_0, players, v)
}

/// Deals roles to the players of a game: the distribution comes from the
/// number of players, the roles are grouped and dealt at random, and each
/// player, in order, gets the role at the same position of the shuffled deal.
/// The errors are those of the deal, and a deal whose size differs from the
/// number of players.
pub fn assign_roles(available_roles: Vec<RoleResponse>, player_ids: Vec<u128>) -> (r: Result<Vec<RoleAssignment>, String>)
    ensures
        assign_roles_outcome(roles_view(available_roles@), player_ids@, match r {
            Ok(a) => Ok(a@),
            Err(e) => Err(e@),
        }),
{
    let distribution = RoleDistribution::for_players(player_ids.len());
    let grouped = group_roles_by_type(available_roles);
    let ghost groups = groups_view(&grouped);
    let ghost d = distribution.counts();
    match select_roles_for_game(grouped, distribution) {
        Ok(selected) => {
            let ghost v = selected@;
            proof {
                let chosen = choose|chosen: Seq<u128>|
                    #![trigger chosen.to_multiset()]
                    chosen.len() == special_sample_size(d.2, groups.2.len() as int)
                    && chosen.to_multiset().subset_of(role_ids(groups.2).to_multiset())
                    && v.to_multiset() == deal_of(groups.0[0].id, groups.1[0].id, d, chosen).to_multiset();
                let dealt = deal_of(groups.0[0].id, groups.1[0].id, d, chosen);
                vstd::seq_lib::to_multiset_len(v);
                vstd::seq_lib::to_multiset_len(dealt);
                assert(v.len() == deal_size(d, groups.2.len() as int));
            }
            pair_roles(player_ids, selected)
        },
        Err(e) => Err(e),
    }
}

/// A new role with the given id and the request's fields.
pub fn role_from_request(id: u128, req: RoleCreateRequest) -> (r: RoleResponse)
    ensures
        r@ == (RoleView {
            id,
            name: req.name@,
            slug: req.slug@,
            description: req.description@,
            image: opt_text(req.image),
            role_type: req.role_type,
            priority: req.priority,
        }),
{
    RoleResponse {
        id,
        name: req.name,
        slug: req.slug,
        description: req.description,
        image: req.image,
        role_type: req.role_type,
        priority: req.priority,
    }
}

/// A new role with a fresh random id and the request's fields.
pub fn create_role(req: RoleCreateRequest) -> (r: RoleResponse)
    ensures
        r@ == (RoleView {
            id: r.id,
            name: req.name@,
            slug: req.slug@,
            description: req.description@,
            image: opt_text(req.image),
            role_type: req.role_type,
            priority: req.priority,
        }),
        is_v4_id(r.id),
{
    role_from_request(new_v4_id(), req)
}

/// The text field after an update: the new value if one is given.
pub open spec fn updated_text(new: Option<String>, old: Seq<char>) -> Seq<char> {
    match new {
        Some(t) => t@,
        None => old,
    }
}

/// The role after an update: each field given in the update replaces the
/// role's, each field left out keeps the role's; the id never changes.
pub open spec fn updated_role(role: RoleView, update: &RoleUpdateRequest) -> RoleView {
    RoleView {
        id: role.id,
        name: updated_text(update.name, role.name),
        slug: updated_text(update.slug, role.slug),
        description: updated_text(update.description, role.description),
        image: match update.image {
            Some(t) => Some(t@),
            None => role.image,
        },
        role_type: match update.role_type {
            Some(t) => t,
            None => role.role_type,
        },
        priority: match update.priority {
            Some(p) => Some(p),
            None => role.priority,
        },
    }
}

/// Applies an update to a role.
pub fn update_role(role: RoleResponse, update: RoleUpdateRequest) -> (r: RoleResponse)
    ensures
        r@ == updated_role(role@, &update),
        r.id == role.id,
        r.name@ == (match update.name { Some(t) => t@, None => role.name@ }),
        r.slug@ == (match update.slug { Some(t) => t@, None => role.slug@ }),
        r.description@ == (match update.description { Some(t) => t@, None => role.description@ }),
        opt_text(r.image) == (match update.image { Some(t) => Some(t@), None => opt_text(role.image) }),
        r.role_type == (match update.role_type { Some(t) => t, None => role.role_type }),
        r.priority == (match update.priority { Some(p) => Some(p), None => role.priority }),
{
    RoleResponse {
        id: role.id,
        name: match update.name { Some(t) => t, None => role.name },
        slug: match update.slug { Some(t) => t, None => role.slug },
        description: match update.description { Some(t) => t, None => role.description },
        image: match update.image { Some(t) => Some(t), None => role.image },
        role_type: match update.role_type { Some(t) => t, None => role.role_type },
        priority: match update.priority { Some(p) => Some(p), None => role.priority },
    }
}

/// Each field given in an update replaces the role's field, and each field
/// left out keeps the role's; the id never changes.
pub proof fn lemma_update_replaces_given_fields(role: RoleView, update: &RoleUpdateRequest)
    ensures
        updated_role(role, update).id == role.id,
        update.name is Some ==> updated_role(role, update).name == update.name->0@,
        update.name is None ==> updated_role(role, update).name == role.name,
        update.slug is Some ==> updated_role(role, update).slug == update.slug->0@,
        update.slug is None ==> updated_role(role, update).slug == role.slug,
        update.description is Some ==> updated_role(role, update).description == update.description->0@,
        update.description is None ==> updated_role(role, update).description == role.description,
        update.image is Some ==> updated_role(role, update).image == Some(update.image->0@),
        update.image is None ==> updated_role(role, update).image == role.image,
        update.role_type is Some ==> updated_role(role, update).role_type == update.role_type->0,
        update.role_type is None ==> updated_role(role, update).role_type == role.role_type,
        update.priority is Some ==> updated_role(role, update).priority == update.priority,
        update.priority is None ==> updated_role(role, update).priority == role.priority,
{
}

/// Whether a role is a beast, a villager or a special depends on its type
/// and slug alone: two roles that agree in both are sorted alike, whatever
/// their ids, names, descriptions, images and priorities.
pub proof fn lemma_grouping_depends_on_type_and_slug(a: RoleView, b: RoleView)
    requires
        a.role_type == b.role_type,
        a.slug == b.slug,
    ensures
        is_beast(a) == is_beast(b),
        is_villager(a) == is_villager(b),
        is_special(a) == is_special(b),
{
}

/// A role is a villager exactly when it is a citizen whose slug reads
/// `villager` in lower case; every beast is a beast, every neutral and every
/// other citizen is special, and each role falls in exactly one group.
pub proof fn lemma_villager_by_slug(r: RoleView)
    ensures
        is_villager(r) <==> r.role_type == RoleType::Citizen && lowercase(r.slug) == seq!['v', 'i', 'l', 'l', 'a', 'g', 'e', 'r'],
        is_beast(r) <==> r.role_type == RoleType::Beast,
        r.role_type == RoleType::Neutral ==> is_special(r),
        r.role_type == RoleType::Citizen && lowercase(r.slug) != seq!['v', 'i', 'l', 'l', 'a', 'g', 'e', 'r'] ==> is_special(r),
        (is_beast(r) as int) + (is_villager(r) as int) + (is_special(r) as int) == 1,
{
}

/// An update that gives no field leaves the role as it was.
pub proof fn lemma_empty_update_keeps_role(role: RoleView, update: &RoleUpdateRequest)
    requires
        update.name is None,
        update.slug is None,
        update.description is None,
        update.image is None,
        update.role_type is None,
        update.priority is None,
    ensures
        updated_role(role, update) == role,
{
}

/// Applying the same update twice is the same as applying it once.
pub proof fn lemma_update_idempotent(role: RoleView, update: &RoleUpdateRequest)
    ensures
        updated_role(updated_role(role, update), update) == updated_role(role, update),
{
}

} // verus!
