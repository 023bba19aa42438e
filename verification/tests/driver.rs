use vanadium::cache::RequestContext;
use vanadium::chain::{chain_push, chain_start, MAX_REDIRECTS};
use vanadium::errors::FetchError;
use vanadium::url::Url;

#[test]
fn chain_starts_with_the_input() {
    let u = Url::new("http://a.com/x").unwrap();
    let chain = chain_start(u.clone());
    assert_eq!(chain.len(), 1);
    assert_eq!(chain[0], u);
}

#[test]
fn redirect_cycle_is_detected() {
    let u = Url::new("http://a.com/x").unwrap();
    let mut chain = chain_start(u);
    assert_eq!(chain_push(&mut chain, String::from("/y")), Ok(()));
    assert_eq!(
        chain_push(&mut chain, String::from("/x")),
        Err(FetchError::RedirectCycle)
    );
    assert_eq!(chain.len(), 2);
}

#[test]
fn redirect_to_current_locator_is_a_cycle() {
    let u = Url::new("http://a.com/x").unwrap();
    let mut chain = chain_start(u);
    assert_eq!(
        chain_push(&mut chain, String::from("/x")),
        Err(FetchError::RedirectCycle)
    );
}

#[test]
fn absolute_redirect_cycle_is_detected() {
    let u = Url::new("http://a.com/x").unwrap();
    let mut chain = chain_start(u);
    assert_eq!(chain_push(&mut chain, String::from("http://b.com/z")), Ok(()));
    assert_eq!(
        chain_push(&mut chain, String::from("http://a.com/x")),
        Err(FetchError::RedirectCycle)
    );
}

#[test]
fn too_many_redirects_at_the_bound() {
    let u = Url::new("http://a.com/0").unwrap();
    let mut chain = chain_start(u);
    for k in 1..(MAX_REDIRECTS - 1) {
        assert_eq!(chain_push(&mut chain, format!("/{k}")), Ok(()));
    }
    assert_eq!(chain.len(), MAX_REDIRECTS - 1);
    assert_eq!(
        chain_push(&mut chain, String::from("/last")),
        Err(FetchError::TooManyRedirects)
    );
    assert_eq!(chain.len(), MAX_REDIRECTS - 1);
}

#[test]
fn cycle_takes_precedence_over_the_bound() {
    let u = Url::new("http://a.com/0").unwrap();
    let mut chain = chain_start(u);
    for k in 1..(MAX_REDIRECTS - 1) {
        assert_eq!(chain_push(&mut chain, format!("/{k}")), Ok(()));
    }
    assert_eq!(
        chain_push(&mut chain, String::from("/0")),
        Err(FetchError::RedirectCycle)
    );
}

#[test]
fn bad_follow_surfaces_its_error() {
    let u = Url::new("http://a.com/x").unwrap();
    let mut chain = chain_start(u);
    assert_eq!(
        chain_push(&mut chain, String::from("ftp://b.com/z")),
        Err(FetchError::UnsupportedScheme)
    );
    assert_eq!(chain.len(), 1);
}

#[test]
fn connection_reuse_keeps_one_transport_per_authority() {
    let mut ctx: RequestContext<u32> = RequestContext::new();
    let mut created: u32 = 0;
    for _ in 0..2 {
        if ctx.lookup("a.com", 80).is_none() {
            created += 1;
            ctx.insert(String::from("a.com"), 80, created);
        }
    }
    assert_eq!(created, 1);
    assert_eq!(ctx.entries.len(), 1);
}

#[test]
fn different_authorities_get_different_transports() {
    let mut ctx: RequestContext<u32> = RequestContext::new();
    let mut created: u32 = 0;
    for authority in [("a.com", 80u16), ("b.com", 80u16), ("a.com", 8080u16)] {
        if ctx.lookup(authority.0, authority.1).is_none() {
            created += 1;
            ctx.insert(String::from(authority.0), authority.1, created);
        }
    }
    assert_eq!(created, 3);
    assert_eq!(ctx.entries.len(), 3);
}

#[test]
fn lookup_finds_the_transport_created_for_the_authority() {
    let mut ctx: RequestContext<u32> = RequestContext::new();
    ctx.insert(String::from("a.com"), 80, 7);
    ctx.insert(String::from("b.com"), 443, 9);
    let i = ctx.lookup("a.com", 80).unwrap();
    assert_eq!(ctx.entries[i].2, 7);
    let j = ctx.lookup("b.com", 443).unwrap();
    assert_eq!(ctx.entries[j].2, 9);
    assert!(ctx.lookup("a.com", 8080).is_none());
}
