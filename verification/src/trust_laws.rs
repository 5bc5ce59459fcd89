//! Whom trust reaches, where a document goes in the cloud folder, and which
//! rows of the styles share a value.

use crate::collaboration_settings::{
    change_binding, create_squad_with_id, dropbox_document_binding_item, remote_path,
    render_collaboration_profile, trust_collaborator_of, trust_view_of, without_back_slashes,
    without_front_slashes, without_slashes, BindingChange, BindingView, CollaborationScope,
    CollaborationSquad, TrustForm, TrustView, TrustedCollaborator,
};
use crate::dialog_laws::{is_core_of, lemma_core};
use crate::style_pages::{ListedStyle, PerStyle, StyleSizes, StyleSlot};
use crate::toolkit_laws::says_something;
use vstd::prelude::*;

verus! {

/// A person is trusted for one document, under the key and the name that were
/// given, and only where there is a document, a name and a valid key.
pub proof fn a_person_is_trusted_for_one_document(
    key: String,
    key_is_valid: bool,
    name: &str,
    document: Option<String>,
    person: Option<TrustedCollaborator>,
)
    requires
        call_ensures(trust_collaborator_of, (key, key_is_valid, name, document), person),
    ensures
        person is Some <==> document is Some && key_is_valid && says_something(name@),
        person is Some ==> {
            let trusted = person->0;
            &&& trusted.identity_key@ == key@
            &&& is_core_of(trusted.display_name@, name@)
            &&& trusted.verified
            &&& trusted.scopes@.len() == 1
            &&& trusted.scopes@[0] matches CollaborationScope::Document(path) && path@
                == (document->0)@
        },
{
    lemma_core(name@);
}

/// The button that trusts a person waits for a valid key, a saved document and
/// the comparison of the codes; every person who is trusted is listed.
pub proof fn trust_waits_for_the_comparison(
    form: TrustForm,
    key_is_valid: bool,
    code: Option<&str>,
    people: Vec<TrustedCollaborator>,
    has_document: bool,
    view: TrustView,
)
    requires
        call_ensures(trust_view_of, (&form, key_is_valid, code, &people, has_document), view),
    ensures
        !view.add_disabled <==> key_is_valid && has_document && form.compared,
        view.safety_line is Some <==> key_is_valid && code is Some,
        view.people@.len() == people@.len(),
        forall|i: int|
            0 <= i < people@.len() ==> (#[trigger] view.people@[i]).0@ == people@[i].display_name@
                && view.people@[i].1@ == people@[i].identity_key@,
{
    let left = view.people@.map_values(|line: (String, String)| (line.0@, line.1@));
    let right = crate::collaboration_settings::people_lines(people@);
    assert(left == right);
    assert(left.len() == view.people@.len());
    assert(right.len() == people@.len());
    assert forall|i: int| 0 <= i < people@.len() implies (#[trigger] view.people@[i]).0@
        == people@[i].display_name@ && view.people@[i].1@ == people@[i].identity_key@ by {
        assert(left[i] == right[i]);
    }
}

/// A squad is founded only with a member whose key was compared, for one
/// folder.
pub proof fn a_squads_member_is_verified(
    id: String,
    name: &str,
    member: &str,
    people: Vec<TrustedCollaborator>,
    folder: Option<String>,
    squad: Option<CollaborationSquad>,
)
    requires
        call_ensures(create_squad_with_id, (id, name, member, &people, folder), squad),
    ensures
        squad is Some ==> {
            let founded = squad->0;
            &&& founded.id == id
            &&& says_something(name@) && is_core_of(founded.name@, name@)
            &&& founded.member_identity_keys@.len() == 1
            &&& is_core_of(founded.member_identity_keys@[0]@, member@)
            &&& exists|i: int|
                0 <= i < people@.len() && (#[trigger] people@[i]).verified
                    && people@[i].identity_key@ == founded.member_identity_keys@[0]@
            &&& founded.default_scopes@.len() == 1
            &&& folder is Some
            &&& founded.default_scopes@[0] matches CollaborationScope::Folder(scope) && scope@
                == (folder->0)@
        },
        squad is None ==> folder is None || !says_something(name@) || forall|i: int|
            0 <= i < people@.len() && (#[trigger] people@[i]).verified ==> people@[i].identity_key@
                != crate::text::trimmed(member@),
{
    lemma_core(name@);
    lemma_core(member@);
}

/// A name is saved where it is another than the one that is saved and says
/// something.
pub proof fn a_new_name_is_saved(input: &str, persisted: &str, name: Option<String>)
    requires
        call_ensures(render_collaboration_profile, (input, persisted), name),
    ensures
        name is Some ==> says_something(input@) && is_core_of((name->0)@, input@) && (name->0)@
            != persisted@,
        name is None ==> !says_something(input@) || is_core_of(persisted@, input@),
{
    lemma_core(input@);
}

/// A text of slashes alone.
pub open spec fn all_slashes(text: Seq<char>) -> bool {
    forall|i: int| 0 <= i < text.len() ==> #[trigger] text[i] == '/'
}

proof fn lemma_front_slashes(front: Seq<char>, rest: Seq<char>)
    requires
        all_slashes(front),
        rest.len() == 0 || rest[0] != '/',
    ensures
        without_front_slashes(front + rest) == rest,
    decreases front.len(),
{
    let all = front + rest;
    if front.len() == 0 {
        assert(all =~= rest);
    } else {
        assert(all[0] == front[0]);
        assert(all.skip(1) =~= front.skip(1) + rest);
        assert forall|i: int| 0 <= i < front.skip(1).len() implies #[trigger] front.skip(1)[i]
            == '/' by {
            assert(front.skip(1)[i] == front[i + 1]);
        }
        lemma_front_slashes(front.skip(1), rest);
    }
}

proof fn lemma_back_slashes(inner: Seq<char>, back: Seq<char>)
    requires
        all_slashes(back),
        inner.len() == 0 || inner.last() != '/',
    ensures
        without_back_slashes(inner + back) == inner,
    decreases back.len(),
{
    let all = inner + back;
    if back.len() == 0 {
        assert(all =~= inner);
    } else {
        assert(all.last() == back[back.len() - 1]);
        assert(all.drop_last() =~= inner + back.drop_last());
        lemma_back_slashes(inner, back.drop_last());
    }
}

/// A document goes below the cloud folder's root under its own name, with one
/// slash before each, however many the root was written with.
pub proof fn a_document_goes_below_the_root(
    front: Seq<char>,
    inner: Seq<char>,
    back: Seq<char>,
    root: &str,
    file_name: &str,
    path: String,
)
    requires
        call_ensures(remote_path, (root, file_name), path),
        root@ == front + inner + back,
        all_slashes(front),
        all_slashes(back),
        inner.len() > 0 ==> inner[0] != '/' && inner.last() != '/',
        inner.len() == 0 ==> back.len() == 0,
    ensures
        inner.len() > 0 ==> path@ == "/"@ + inner + "/"@ + file_name@,
        inner.len() == 0 ==> path@ == "/"@ + file_name@,
{
    let rest = inner + back;
    assert(root@ =~= front + rest);
    if inner.len() > 0 {
        assert(rest[0] == inner[0]);
    }
    lemma_front_slashes(front, rest);
    lemma_back_slashes(inner, back);
    assert(without_slashes(root@) == inner);
}

/// A document that is linked is unlinked, and one that is not is linked to its
/// own place; either needs a file. The button waits exactly where it could do
/// nothing.
pub proof fn a_link_is_switched(
    has_path: bool,
    remote: Option<&str>,
    connected: bool,
    root: &str,
    file_name: &str,
    change: Option<BindingChange>,
    place: String,
    view: BindingView,
)
    requires
        call_ensures(
            change_binding,
            (has_path, remote is Some, root, Some(file_name)),
            change,
        ),
        call_ensures(remote_path, (root, file_name), place),
        call_ensures(dropbox_document_binding_item, (remote, has_path, connected), view),
    ensures
        change is Some <==> has_path,
        has_path && remote is Some ==> change == Some(BindingChange::Unlink),
        has_path && remote is None ==> (change matches Some(BindingChange::Link(path)) && path@
            == place@),
        view.disabled <==> !has_path || (remote is None && !connected),
{
}

/// Two styles have one size: a style and itself, a cite and emphasis, and a tag
/// and an analytic.
pub open spec fn share_a_size(style: ListedStyle, other: ListedStyle) -> bool {
    ||| style == other
    ||| style == ListedStyle::Cite && other == ListedStyle::Emphasis
    ||| style == ListedStyle::Emphasis && other == ListedStyle::Cite
    ||| style == ListedStyle::Tag && other == ListedStyle::Analytic
    ||| style == ListedStyle::Analytic && other == ListedStyle::Tag
}

/// A style's size shows as it was set, and so does the size of the style that
/// shares it: a cite's is that of emphasis and a tag's that of an analytic; no
/// other style's changes.
pub proof fn a_size_that_is_set_shows(
    sizes: &mut StyleSizes,
    style: ListedStyle,
    size: u32,
    other: ListedStyle,
    shown: u32,
    before: u32,
    after: u32,
)
    requires
        call_ensures(StyleSizes::set_style_size, (sizes, style, size), ()),
        call_ensures(StyleSizes::style_size, (&*final(sizes), style), shown),
        call_ensures(StyleSizes::style_size, (&*old(sizes), other), before),
        call_ensures(StyleSizes::style_size, (&*final(sizes), other), after),
    ensures
        shown == size,
        ({
            after == (if share_a_size(style, other) {
                size
            } else {
                before
            })
        }),
        style == ListedStyle::Underline ==> final(sizes).normal == size,
        style != ListedStyle::Underline ==> final(sizes).normal == old(sizes).normal,
{
}

/// What is set for a style is what it has, and every other keeps its own.
pub proof fn every_style_keeps_its_own<T>(
    values: &mut PerStyle<T>,
    style: ListedStyle,
    value: T,
    other: ListedStyle,
    own: &T,
    before: &T,
    after: &T,
)
    requires
        call_ensures(PerStyle::<T>::set, (values, style, value), ()),
        call_ensures(PerStyle::<T>::get, (&*final(values), style), own),
        call_ensures(PerStyle::<T>::get, (&*old(values), other), before),
        call_ensures(PerStyle::<T>::get, (&*final(values), other), after),
        other != style,
    ensures
        *own == value,
        *after == *before,
{
}

/// The headings and what stands under them are boxed by paragraph, and what is
/// said inside by run.
pub proof fn headings_are_boxed_by_paragraph(style: ListedStyle, slot: StyleSlot)
    requires
        call_ensures(ListedStyle::slot, (style,), slot),
    ensures
        slot is Paragraph <==> style == ListedStyle::Pocket || style == ListedStyle::Hat || style
            == ListedStyle::Block || style == ListedStyle::Tag || style == ListedStyle::Analytic
            || style == ListedStyle::Undertag,
{
}

} // verus!
