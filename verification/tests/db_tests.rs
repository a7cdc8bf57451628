use oppai::db::{
    sign_in_start, sign_in_step, test_player_id, OidcPlayer, Provider, SignInAction, SignInEvent, SignInState,
};

fn oidc(email: Option<&str>, verified: Option<bool>) -> OidcPlayer {
    OidcPlayer {
        provider: Provider::Google,
        subject: "subject-1".to_string(),
        email: email.map(|s| s.to_string()),
        email_verified: verified,
        name: None,
        nickname: None,
        preferred_username: None,
    }
}

#[test]
fn nickname_prefers_preferred_username_then_nickname_then_name_then_subject() {
    let mut p = oidc(None, None);
    assert_eq!(p.nickname(), "subject-1");
    p.name = Some("Name".to_string());
    assert_eq!(p.nickname(), "Name");
    p.nickname = Some("Nick".to_string());
    assert_eq!(p.nickname(), "Nick");
    p.preferred_username = Some("Pref".to_string());
    assert_eq!(p.nickname(), "Pref");
    p.nickname = None;
    assert_eq!(p.nickname(), "Pref");
}

#[test]
fn sign_in_known_subject_commits_at_once() {
    let p = oidc(Some("a@b.c"), Some(true));
    let (s, a) = sign_in_start();
    assert_eq!((s, a), (SignInState::UpdatingRecord, SignInAction::UpdateRecord));
    let (s, a) = sign_in_step(&p, s, SignInEvent::Found(Some(7)));
    assert_eq!(a, SignInAction::Commit);
    let (s, a) = sign_in_step(&p, s, SignInEvent::Completed);
    assert_eq!(s, SignInState::Done { player_id: 7 });
    assert_eq!(a, SignInAction::Finish { player_id: 7 });
}

#[test]
fn sign_in_verified_email_links_existing_player() {
    let p = oidc(Some("a@b.c"), Some(true));
    let (s, _) = sign_in_start();
    let (s, a) = sign_in_step(&p, s, SignInEvent::Found(None));
    assert_eq!(a, SignInAction::FindByEmail);
    let (s, a) = sign_in_step(&p, s, SignInEvent::Found(Some(11)));
    assert_eq!(a, SignInAction::LinkRecord { player_id: 11 });
    let (s, a) = sign_in_step(&p, s, SignInEvent::Completed);
    assert_eq!(a, SignInAction::Commit);
    let (s, a) = sign_in_step(&p, s, SignInEvent::Completed);
    assert_eq!(s, SignInState::Done { player_id: 11 });
    assert_eq!(a, SignInAction::Finish { player_id: 11 });
}

#[test]
fn sign_in_email_without_match_creates_player() {
    let p = oidc(Some("a@b.c"), Some(true));
    let (s, _) = sign_in_start();
    let (s, _) = sign_in_step(&p, s, SignInEvent::Found(None));
    let (s, a) = sign_in_step(&p, s, SignInEvent::Found(None));
    assert_eq!(a, SignInAction::CreatePlayer);
    let (s, a) = sign_in_step(&p, s, SignInEvent::Created(99));
    assert_eq!(a, SignInAction::LinkRecord { player_id: 99 });
    let (s, _) = sign_in_step(&p, s, SignInEvent::Completed);
    let (s, a) = sign_in_step(&p, s, SignInEvent::Completed);
    assert_eq!(s, SignInState::Done { player_id: 99 });
    assert_eq!(a, SignInAction::Finish { player_id: 99 });
}

#[test]
fn sign_in_unverified_or_missing_email_creates_player() {
    for p in [oidc(Some("a@b.c"), Some(false)), oidc(Some("a@b.c"), None), oidc(None, Some(true))] {
        let (s, _) = sign_in_start();
        let (s, a) = sign_in_step(&p, s, SignInEvent::Found(None));
        assert_eq!(s, SignInState::CreatingPlayer);
        assert_eq!(a, SignInAction::CreatePlayer);
    }
}

#[test]
fn test_player_id_is_uuid_v5_of_name() {
    assert_eq!(test_player_id("alice"), 0xec61d669fc85586ba097822a49b51e7e);
    assert_eq!(test_player_id("test player"), 0x2e5681b3b0c653eb9bc65450f1740d2d);
    assert_eq!(test_player_id(""), 0xe129f27c51035c5c844bcdf0a15e160d);
    let id = test_player_id("bob");
    assert_eq!((id >> 76) & 0xf, 5);
    assert_eq!((id >> 62) & 0x3, 2);
    assert_eq!(id, uuid::Uuid::new_v5(&uuid::Uuid::nil(), b"bob").as_u128());
}
