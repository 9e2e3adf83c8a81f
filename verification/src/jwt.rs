//! Tokens in the compact JWT form: `header.payload.signature`, each part in URL-safe
//! base64, signed with Ed25519.
use vstd::prelude::*;
use vstd::string::*;
use vstd::utf8::*;

use crate::auth::{AuthError, ClaimsView, TokenClaims};
use crate::crypto::{
    ed25519_accepts, ed25519_public_key, ed25519_signature, sign, signature_is_valid,
};
use crate::encoding::{
    base64url, base64url_bytes, encode_url, is_url_safe, law_base64_is_canonical, lemma_base64url,
    read_base64url,
};
use crate::json::{
    find_member, json_object_members, json_object_text, member_views, members_map, read_object,
    write_object, JsonMember, JsonScalar, ScalarView,
};
use crate::text::{
    joined, law_split_joins_again, lemma_split_append, lemma_split_longer, lemma_split_single, same,
    split, split_on, texts,
};

verus! {

/// The members of the header of every token.
pub open spec fn header_members() -> Seq<(Seq<char>, ScalarView)> {
    seq![("alg"@, ScalarView::Text("EdDSA"@)), ("typ"@, ScalarView::Text("JWT"@))]
}

/// The members of the payload with the given claims, in the order in which they are
/// written; `exp` is left out of a token that does not expire.
pub open spec fn claim_members(claims: ClaimsView) -> Seq<(Seq<char>, ScalarView)> {
    let always = seq![
        ("iss"@, ScalarView::Text(claims.iss)),
        ("aud"@, ScalarView::Text(claims.aud)),
        ("sub"@, ScalarView::Text(claims.sub)),
        ("jti"@, ScalarView::Text(claims.jti)),
        ("iat"@, ScalarView::Integer(claims.iat)),
    ];
    match claims.exp {
        Some(exp) => always.push(("exp"@, ScalarView::Integer(exp))),
        None => always,
    }
}

/// The text under `name`, if there is one.
pub open spec fn text_member(members: Map<Seq<char>, ScalarView>, name: Seq<char>) -> Option<
    Seq<char>,
> {
    if members.dom().contains(name) && members[name] is Text {
        Some(members[name]->Text_0)
    } else {
        None
    }
}

/// The claims in a payload: four texts, an integer `iat`, and an `exp` that is an integer,
/// null or left out.
pub open spec fn claims_of(members: Map<Seq<char>, ScalarView>) -> Option<ClaimsView> {
    let iss = text_member(members, "iss"@);
    let aud = text_member(members, "aud"@);
    let sub = text_member(members, "sub"@);
    let jti = text_member(members, "jti"@);
    let iat_given = members.dom().contains("iat"@) && members["iat"@] is Integer;
    let exp_absent = !members.dom().contains("exp"@) || members["exp"@] is Null;
    if iss is Some && aud is Some && sub is Some && jti is Some && iat_given && (exp_absent
        || members["exp"@] is Integer) {
        Some(
            ClaimsView {
                iss: iss->0,
                aud: aud->0,
                sub: sub->0,
                jti: jti->0,
                iat: members["iat"@]->Integer_0,
                exp: if exp_absent {
                    None
                } else {
                    Some(members["exp"@]->Integer_0)
                },
            },
        )
    } else {
        None
    }
}

/// The part of a token that is signed.
pub open spec fn jwt_message(claims: ClaimsView) -> Seq<char> {
    base64url(json_object_text(header_members())).push('.') + base64url(
        json_object_text(claim_members(claims)),
    )
}

/// The token with the given claims under a secret seed.
pub open spec fn jwt_text(claims: ClaimsView, seed: Seq<u8>) -> Seq<char> {
    jwt_message(claims).push('.') + base64url(
        ed25519_signature(seed, encode_utf8(jwt_message(claims))),
    )
}

/// Whether the members of a header name the right algorithm.
pub open spec fn algorithm_is_eddsa(members: Map<Seq<char>, ScalarView>) -> bool {
    text_member(members, "alg"@) == Some("EdDSA"@)
}

/// Whether some bytes are the text of a JSON object whose `alg` is `EdDSA`.
pub open spec fn header_is_accepted(header: Seq<u8>) -> bool {
    json_object_members(header) matches Some(members) && algorithm_is_eddsa(members)
}

/// The claims of `token`, if it has three parts that decode, names the right algorithm,
/// carries a signature of 64 bytes that `public_key` accepts, and holds claims.
pub open spec fn jwt_claims(token: Seq<char>, public_key: Seq<u8>) -> Option<ClaimsView> {
    let parts = split(token, '.');
    if parts.len() != 3 {
        None
    } else {
        let message = encode_utf8(parts[0].push('.') + parts[1]);
        match (base64url_bytes(parts[0]), base64url_bytes(parts[1]), base64url_bytes(parts[2])) {
            (Some(header), Some(payload), Some(signature)) => {
                if header_is_accepted(header) && signature.len() == 64 && ed25519_accepts(
                    public_key,
                    message,
                    signature,
                ) {
                    match json_object_members(payload) {
                        Some(members) => claims_of(members),
                        None => None,
                    }
                } else {
                    None
                }
            },
            _ => None,
        }
    }
}

/// How many bytes the signature of a token of three parts has, if it is base64.
pub open spec fn signature_len(token: Seq<char>) -> Option<nat> {
    let parts = split(token, '.');
    if parts.len() == 3 && base64url_bytes(parts[2]) is Some {
        Some(base64url_bytes(parts[2])->0.len())
    } else {
        None
    }
}

/// A token with anything appended is no token.
pub proof fn lemma_lengthened_token(token: Seq<char>, more: Seq<char>, public_key: Seq<u8>)
    requires
        signature_len(token) == Some(64nat),
        more.len() > 0,
    ensures
        jwt_claims(token + more, public_key) is None,
{
    let parts = split(token, '.');
    let longer = split(token + more, '.');
    lemma_split_longer(token, more, '.');
    let signature = base64url_bytes(parts[2])->0;
    lemma_base64url(signature);
    if longer.len() == 3 && base64url_bytes(longer[2]) is Some {
        assert(longer[2] == parts[2] + more);
        lemma_base64url(base64url_bytes(longer[2])->0);
    }
}

/// Reading the members that were written for some claims gives the claims back.
proof fn lemma_claims_of_members(claims: ClaimsView)
    ensures
        claims_of(members_map(claim_members(claims))) == Some(claims),
{
    reveal_strlit("iss");
    reveal_strlit("aud");
    reveal_strlit("sub");
    reveal_strlit("jti");
    reveal_strlit("iat");
    reveal_strlit("exp");
    reveal_with_fuel(members_map, 7);
    let m = claim_members(claims);
    assert("iss"@[0] == 'i' && "iss"@[1] == 's');
    assert("aud"@[0] == 'a');
    assert("sub"@[0] == 's');
    assert("jti"@[0] == 'j');
    assert("iat"@[0] == 'i' && "iat"@[1] == 'a');
    assert("exp"@[0] == 'e');
    let m5 = m.take(5);
    let m4 = m.take(4);
    let m3 = m.take(3);
    let m2 = m.take(2);
    let m1 = m.take(1);
    let m0 = m.take(0);
    if claims.exp is Some {
        assert(m.drop_last() =~= m5);
    } else {
        assert(m =~= m5);
    }
    assert(m5.drop_last() =~= m4);
    assert(m4.drop_last() =~= m3);
    assert(m3.drop_last() =~= m2);
    assert(m2.drop_last() =~= m1);
    assert(m1.drop_last() =~= m0);
    assert(m0.len() == 0);
}

proof fn lemma_header_members()
    ensures
        text_member(members_map(header_members()), "alg"@) == Some("EdDSA"@),
{
    reveal_strlit("alg");
    reveal_strlit("typ");
    reveal_with_fuel(members_map, 3);
    assert("alg"@[0] == 'a' && "typ"@[0] == 't');
    let m = header_members();
    assert(m.drop_last() =~= m.take(1));
    assert(m.take(1).drop_last() =~= m.take(0));
}

/// A token splits at its two dots into exactly the three parts that it was made of.
proof fn lemma_three_parts(header: Seq<u8>, payload: Seq<u8>, signature: Seq<u8>)
    ensures
        split(
            (base64url(header).push('.') + base64url(payload)).push('.') + base64url(signature),
            '.',
        ) == seq![base64url(header), base64url(payload), base64url(signature)],
{
    lemma_base64url(header);
    lemma_base64url(payload);
    lemma_base64url(signature);
    let h = base64url(header);
    let p = base64url(payload);
    let s = base64url(signature);
    assert forall|i: int| 0 <= i < h.len() implies h[i] != '.' by {
        assert(is_url_safe(h[i]));
    }
    assert forall|i: int| 0 <= i < p.len() implies p[i] != '.' by {
        assert(is_url_safe(p[i]));
    }
    assert forall|i: int| 0 <= i < s.len() implies s[i] != '.' by {
        assert(is_url_safe(s[i]));
    }
    lemma_split_single(h, '.');
    lemma_split_append(h, '.', p);
    lemma_split_append(h.push('.') + p, '.', s);
    assert(seq![h].push(p).push(s) =~= seq![h, p, s]);
}

fn text_entry(name: &str, value: &str) -> (member: JsonMember)
    ensures
        member@ == (name@, ScalarView::Text(value@)),
{
    JsonMember { name: name.to_owned(), value: JsonScalar::Text(value.to_owned()) }
}

fn integer_entry(name: &str, value: i64) -> (member: JsonMember)
    ensures
        member@ == (name@, ScalarView::Integer(value as int)),
{
    JsonMember { name: name.to_owned(), value: JsonScalar::Integer(value) }
}

/// The token with the given claims, signed with the key of `seed`. It never fails, and the
/// key's public half reads the same claims back from it.
pub fn encode_jwt(claims: &TokenClaims, seed: &[u8]) -> (r: Result<String, AuthError>)
    requires
        seed@.len() == 32,
    ensures
        r is Ok,
        r matches Ok(token) ==> token@ == jwt_text(claims@, seed@) && jwt_claims(
            token@,
            ed25519_public_key(seed@),
        ) == Some(claims@),
        r matches Ok(token) ==> split(token@, '.').len() == 3 && signature_len(token@) == Some(
            64nat,
        ),
{
    let mut header: Vec<JsonMember> = Vec::new();
    header.push(text_entry("alg", "EdDSA"));
    header.push(text_entry("typ", "JWT"));
    assert(member_views(header@) =~= header_members());
    let header_bytes = match write_object(&header) {
        Ok(bytes) => bytes,
        Err(_) => return Err(AuthError::Internal),
    };
    let mut payload: Vec<JsonMember> = Vec::new();
    payload.push(text_entry("iss", claims.iss.as_str()));
    payload.push(text_entry("aud", claims.aud.as_str()));
    payload.push(text_entry("sub", claims.sub.as_str()));
    payload.push(text_entry("jti", claims.jti.as_str()));
    payload.push(integer_entry("iat", claims.iat));
    if let Some(exp) = claims.exp {
        payload.push(integer_entry("exp", exp));
    }
    assert(member_views(payload@) =~= claim_members(claims@));
    let payload_bytes = match write_object(&payload) {
        Ok(bytes) => bytes,
        Err(_) => return Err(AuthError::Internal),
    };
    let mut message = encode_url(&header_bytes);
    message.push('.');
    message.append(encode_url(&payload_bytes).as_str());
    assert(message@ =~= jwt_message(claims@));
    let signature = sign(seed, message.as_str().as_bytes());
    let mut token = message.clone();
    token.push('.');
    token.append(encode_url(&signature).as_str());
    proof {
        assert(token@ =~= jwt_text(claims@, seed@));
        lemma_three_parts(header_bytes@, payload_bytes@, signature@);
        lemma_base64url(header_bytes@);
        lemma_base64url(payload_bytes@);
        lemma_base64url(signature@);
        lemma_header_members();
        lemma_claims_of_members(claims@);
    }
    Ok(token)
}

fn required_text(members: &Vec<JsonMember>, name: &str) -> (r: Option<String>)
    ensures
        match r {
            Some(text) => text_member(members_map(member_views(members@)), name@) == Some(text@),
            None => text_member(members_map(member_views(members@)), name@) is None,
        },
{
    match find_member(members, name) {
        Some(JsonScalar::Text(text)) => Some(text.clone()),
        _ => None,
    }
}

/// Whether the members of a header name the right algorithm.
pub fn names_eddsa(members: &Vec<JsonMember>) -> (r: bool)
    ensures
        r == algorithm_is_eddsa(members_map(member_views(members@))),
{
    match required_text(members, "alg") {
        Some(algorithm) => same(algorithm.as_str(), "EdDSA"),
        None => false,
    }
}

/// The claims that the members of a payload hold.
pub fn read_claims(members: &Vec<JsonMember>) -> (r: Option<TokenClaims>)
    ensures
        match r {
            Some(claims) => claims_of(members_map(member_views(members@))) == Some(claims@),
            None => claims_of(members_map(member_views(members@))) is None,
        },
{
    let iat = match find_member(members, "iat") {
        Some(JsonScalar::Integer(iat)) => *iat,
        _ => return None,
    };
    let exp = match find_member(members, "exp") {
        None => None,
        Some(JsonScalar::Null) => None,
        Some(JsonScalar::Integer(exp)) => Some(*exp),
        Some(_) => return None,
    };
    match (
        required_text(members, "iss"),
        required_text(members, "aud"),
        required_text(members, "sub"),
        required_text(members, "jti"),
    ) {
        (Some(iss), Some(aud), Some(sub), Some(jti)) => Some(
            TokenClaims { iss, aud, sub, jti, iat, exp },
        ),
        _ => None,
    }
}

/// The claims of `token`, provided that `public_key` accepts its signature.
pub fn decode_jwt(token: &str, public_key: &[u8]) -> (r: Result<TokenClaims, AuthError>)
    requires
        public_key@.len() == 32,
    ensures
        match r {
            Ok(claims) => jwt_claims(token@, public_key@) == Some(claims@) && signature_len(token@)
                == Some(64nat),
            Err(error) => jwt_claims(token@, public_key@) is None && error
                == AuthError::InvalidToken,
        },
{
    let parts = split_on(token, '.');
    assert(texts(parts@).len() == parts@.len());
    if parts.len() != 3 {
        return Err(AuthError::InvalidToken);
    }
    assert(texts(parts@)[0] == parts@[0]@);
    assert(texts(parts@)[1] == parts@[1]@);
    assert(texts(parts@)[2] == parts@[2]@);
    let header = match read_base64url(parts[0].as_str()) {
        Some(header) => header,
        None => return Err(AuthError::InvalidToken),
    };
    let header_members = match read_object(&header) {
        Some(members) => members,
        None => return Err(AuthError::InvalidToken),
    };
    if !names_eddsa(&header_members) {
        return Err(AuthError::InvalidToken);
    }
    let signature = match read_base64url(parts[2].as_str()) {
        Some(signature) => signature,
        None => return Err(AuthError::InvalidToken),
    };
    let mut message = parts[0].clone();
    message.push('.');
    message.append(parts[1].as_str());
    if !signature_is_valid(public_key, message.as_str().as_bytes(), &signature) {
        return Err(AuthError::InvalidToken);
    }
    let payload = match read_base64url(parts[1].as_str()) {
        Some(payload) => payload,
        None => return Err(AuthError::InvalidToken),
    };
    let members = match read_object(&payload) {
        Some(members) => members,
        None => return Err(AuthError::InvalidToken),
    };
    match read_claims(&members) {
        Some(claims) => Ok(claims),
        None => Err(AuthError::InvalidToken),
    }
}

/// The members of a payload are some claims if and only if `iss`, `aud`, `sub` and `jti` are
/// the texts of those claims, `iat` is their integer, and `exp` is theirs too; a token without
/// an end has no `exp`, or null.
pub proof fn law_claims_are_read(members: Map<Seq<char>, ScalarView>, claims: ClaimsView)
    ensures
        claims_of(members) == Some(claims) <==> {
            &&& members.dom().contains("iss"@) && members["iss"@] == ScalarView::Text(claims.iss)
            &&& members.dom().contains("aud"@) && members["aud"@] == ScalarView::Text(claims.aud)
            &&& members.dom().contains("sub"@) && members["sub"@] == ScalarView::Text(claims.sub)
            &&& members.dom().contains("jti"@) && members["jti"@] == ScalarView::Text(claims.jti)
            &&& members.dom().contains("iat"@) && members["iat"@] == ScalarView::Integer(claims.iat)
            &&& match claims.exp {
                Some(exp) => members.dom().contains("exp"@) && members["exp"@]
                    == ScalarView::Integer(exp),
                None => !members.dom().contains("exp"@) || members["exp"@] == ScalarView::Null,
            }
        },
{
}

/// A header is accepted by its `alg` alone, which must be the text `EdDSA`.
pub proof fn law_algorithm_is_fixed(members: Map<Seq<char>, ScalarView>)
    ensures
        algorithm_is_eddsa(members) <==> members.dom().contains("alg"@) && members["alg"@]
            == ScalarView::Text("EdDSA"@),
{
}

/// What a token is made of: a header that names the algorithm, the claims, `exp` only where
/// there is one, and the signature of both.
pub proof fn law_token_is_written(claims: ClaimsView, seed: Seq<u8>, message: Seq<char>)
    requires
        message == base64url(
            json_object_text(
                seq![("alg"@, ScalarView::Text("EdDSA"@)), ("typ"@, ScalarView::Text("JWT"@))],
            ),
        ) + seq!['.'] + base64url(
            json_object_text(
                seq![
                    ("iss"@, ScalarView::Text(claims.iss)),
                    ("aud"@, ScalarView::Text(claims.aud)),
                    ("sub"@, ScalarView::Text(claims.sub)),
                    ("jti"@, ScalarView::Text(claims.jti)),
                    ("iat"@, ScalarView::Integer(claims.iat)),
                ] + (match claims.exp {
                    Some(exp) => seq![("exp"@, ScalarView::Integer(exp))],
                    None => Seq::empty(),
                }),
            ),
        ),
    ensures
        jwt_text(claims, seed) == message + seq!['.'] + base64url(
            ed25519_signature(seed, encode_utf8(message)),
        ),
{
    let always = seq![
        ("iss"@, ScalarView::Text(claims.iss)),
        ("aud"@, ScalarView::Text(claims.aud)),
        ("sub"@, ScalarView::Text(claims.sub)),
        ("jti"@, ScalarView::Text(claims.jti)),
        ("iat"@, ScalarView::Integer(claims.iat)),
    ];
    let last: Seq<(Seq<char>, ScalarView)> = match claims.exp {
        Some(exp) => seq![("exp"@, ScalarView::Integer(exp))],
        None => Seq::empty(),
    };
    assert(claim_members(claims) =~= always + last);
    assert(header_members() =~= seq![
        ("alg"@, ScalarView::Text("EdDSA"@)),
        ("typ"@, ScalarView::Text("JWT"@)),
    ]);
    assert(jwt_message(claims) =~= message);
    assert(jwt_text(claims, seed) =~= message + seq!['.'] + base64url(
        ed25519_signature(seed, encode_utf8(message)),
    ));
}

/// A token of three parts in base64 holds some claims if and only if its header is a JSON
/// object that names the algorithm, its signature has 64 bytes and is accepted for the first
/// two parts as they stand, and its payload is a JSON object that holds the claims.
pub proof fn law_token_is_read(
    header: Seq<u8>,
    payload: Seq<u8>,
    signature: Seq<u8>,
    public_key: Seq<u8>,
    claims: ClaimsView,
)
    ensures
        jwt_claims(
            base64url(header) + seq!['.'] + base64url(payload) + seq!['.'] + base64url(signature),
            public_key,
        ) == Some(claims) <==> {
            &&& json_object_members(header) is Some
            &&& json_object_members(header)->0.dom().contains("alg"@)
            &&& json_object_members(header)->0["alg"@] == ScalarView::Text("EdDSA"@)
            &&& signature.len() == 64
            &&& ed25519_accepts(
                public_key,
                encode_utf8(base64url(header) + seq!['.'] + base64url(payload)),
                signature,
            )
            &&& json_object_members(payload) is Some
            &&& claims_of(json_object_members(payload)->0) == Some(claims)
        },
{
    let token = (base64url(header).push('.') + base64url(payload)).push('.') + base64url(signature);
    assert(token =~= base64url(header) + seq!['.'] + base64url(payload) + seq!['.'] + base64url(
        signature,
    ));
    lemma_three_parts(header, payload, signature);
    lemma_base64url(header);
    lemma_base64url(payload);
    lemma_base64url(signature);
    let parts = split(token, '.');
    assert(parts[0].push('.') + parts[1] =~= base64url(header) + seq!['.'] + base64url(payload));
}

/// Nothing but three parts in base64 with two dots between them is a token.
pub proof fn law_tokens_have_three_parts(token: Seq<char>, public_key: Seq<u8>)
    requires
        jwt_claims(token, public_key) is Some,
    ensures
        exists|header: Seq<u8>, payload: Seq<u8>, signature: Seq<u8>|
            #![trigger base64url(header), base64url(payload), base64url(signature)]
            token == base64url(header) + seq!['.'] + base64url(payload) + seq!['.'] + base64url(
                signature,
            ),
{
    let parts = split(token, '.');
    let header = base64url_bytes(parts[0])->0;
    let payload = base64url_bytes(parts[1])->0;
    let signature = base64url_bytes(parts[2])->0;
    law_base64_is_canonical(parts[0], header);
    law_base64_is_canonical(parts[1], payload);
    law_base64_is_canonical(parts[2], signature);
    law_split_joins_again(token, '.');
    assert(joined(parts, '.') == token);
    reveal_with_fuel(joined, 3);
    assert(parts.drop_last().drop_last() =~= parts.take(1));
    assert(parts.drop_last().last() == parts[1]);
    assert(token =~= base64url(header) + seq!['.'] + base64url(payload) + seq!['.'] + base64url(
        signature,
    ));
}

} // verus!
