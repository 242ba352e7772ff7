use std::collections::HashSet;
use std::str::FromStr;

use zbase32_ids::ids::{
    alphabet_position, validate_text, AtendimentoId, DocumentoId, EvolucaoId, PacienteId,
    PlanoAtendimentoId, Zbase32Id, Zbase32IdError, ZBASE32_ALPHABET,
};

fn is_id_text(s: &str) -> bool {
    s.len() == 8 && s.chars().all(|c| ZBASE32_ALPHABET.contains(c))
}

#[test]
fn alphabet_has_32_distinct_ascii_symbols() {
    let symbols: HashSet<char> = ZBASE32_ALPHABET.chars().collect();
    assert_eq!(ZBASE32_ALPHABET.len(), 32);
    assert_eq!(symbols.len(), 32);
    assert!(ZBASE32_ALPHABET.is_ascii());
}

#[test]
fn alphabet_position_finds_each_symbol() {
    for (i, c) in ZBASE32_ALPHABET.chars().enumerate() {
        assert_eq!(alphabet_position(c), Some(i));
    }
    assert_eq!(alphabet_position('y'), Some(0));
    assert_eq!(alphabet_position('9'), Some(31));
    assert_eq!(alphabet_position('l'), None);
    assert_eq!(alphabet_position('0'), None);
    assert_eq!(alphabet_position('v'), None);
    assert_eq!(alphabet_position('Y'), None);
}

#[test]
fn decode_pppppppp_renders_same_text() {
    let id = PacienteId::try_from_str("pppppppp").unwrap();
    assert_eq!(id.to_string(), "pppppppp");
}

#[test]
fn decode_seven_chars_is_invalid_length() {
    assert_eq!(
        PacienteId::try_from_str("ppppppp"),
        Err(Zbase32IdError::InvalidLength)
    );
}

#[test]
fn decode_rejects_wrong_lengths() {
    assert_eq!(PacienteId::try_from_str(""), Err(Zbase32IdError::InvalidLength));
    assert_eq!(PacienteId::try_from_str("abc"), Err(Zbase32IdError::InvalidLength));
    assert_eq!(
        PacienteId::try_from_str("ppppppppp"),
        Err(Zbase32IdError::InvalidLength)
    );
}

#[test]
fn empty_text_is_reported_as_invalid_length() {
    assert_eq!(validate_text(""), Err(Zbase32IdError::InvalidLength));
    assert_eq!(PacienteId::validate_str(""), Err(Zbase32IdError::InvalidLength));
}

#[test]
fn decode_rejects_characters_outside_alphabet() {
    for text in ["pppppppl", "0ppppppp", "pppvpppp", "PPPPPPPP", "ppppppp ", "pppp2ppp"] {
        assert_eq!(
            EvolucaoId::try_from_str(text),
            Err(Zbase32IdError::InvalidCharacters),
            "{}",
            text
        );
    }
}

#[test]
fn non_ascii_character_counts_as_one_character() {
    // eight characters, nine bytes
    assert_eq!(
        PacienteId::try_from_str("ppppppp\u{e9}"),
        Err(Zbase32IdError::InvalidCharacters)
    );
    // seven characters, eight bytes
    assert_eq!(
        PacienteId::try_from_str("pppppp\u{e9}"),
        Err(Zbase32IdError::InvalidLength)
    );
}

#[test]
fn validate_accepts_alphabet_texts() {
    assert_eq!(validate_text("ybndrfg8"), Ok(()));
    assert_eq!(validate_text("h769h769"), Ok(()));
    assert_eq!(DocumentoId::validate_str("ejkmcpqx"), Ok(()));
    assert_eq!(DocumentoId::validate_str("ejkmcpq"), Err(Zbase32IdError::InvalidLength));
}

#[test]
fn round_trip_of_alphabet_texts() {
    let texts = ["ybndrfg8", "ejkmcpqx", "ot1uwisz", "a345h769", "99999999", "yyyyyyyy"];
    for text in texts {
        let id = AtendimentoId::try_from_str(text).unwrap();
        assert_eq!(id.to_string(), text);
        assert_eq!(AtendimentoId::try_from_str(&id.to_string()), Ok(id));
    }
}

#[test]
fn generated_ids_are_valid_and_round_trip() {
    for _ in 0..200 {
        let id = PlanoAtendimentoId::new();
        let text = id.to_string();
        assert!(is_id_text(&text), "{}", text);
        assert_eq!(PlanoAtendimentoId::validate_str(&text), Ok(()));
        assert_eq!(PlanoAtendimentoId::try_from_str(&text), Ok(id));
    }
}

#[test]
fn default_is_a_fresh_valid_id() {
    let id = PacienteId::default();
    assert!(is_id_text(&id.to_string()));
}

#[test]
fn generated_ids_are_almost_always_distinct() {
    // 10 000 draws among 32^8 values: a collision has probability about 5e-5
    let mut seen: HashSet<PacienteId> = HashSet::new();
    for _ in 0..10_000 {
        seen.insert(PacienteId::new());
    }
    assert_eq!(seen.len(), 10_000);
}

#[test]
fn equality_follows_the_symbols() {
    let a = PacienteId::try_from_str("pppppppp").unwrap();
    let b = PacienteId::try_from_str("pppppppp").unwrap();
    let c = PacienteId::try_from_str("pppppppy").unwrap();
    assert_eq!(a, b);
    assert_ne!(a, c);
    let copy = a;
    assert_eq!(copy.clone(), a);
}

#[test]
fn ids_serve_as_map_keys() {
    let mut set: HashSet<EvolucaoId> = HashSet::new();
    set.insert(EvolucaoId::try_from_str("eeeeeeee").unwrap());
    set.insert(EvolucaoId::try_from_str("eeeeeeee").unwrap());
    set.insert(EvolucaoId::try_from_str("aaaaaaaa").unwrap());
    assert_eq!(set.len(), 2);
}

#[test]
fn from_str_parses_like_try_from_str() {
    let id: PacienteId = "pppppppp".parse().unwrap();
    assert_eq!(id.to_string(), "pppppppp");
    assert_eq!(
        PacienteId::from_str("pppp"),
        Err(Zbase32IdError::InvalidLength)
    );
}

#[test]
fn converting_between_kinds_goes_through_text() {
    let paciente = PacienteId::try_from_str("pppppppp").unwrap();
    let atendimento = AtendimentoId::try_from_str(&paciente.to_string()).unwrap();
    assert_eq!(atendimento.to_string(), paciente.to_string());
}

#[test]
fn error_messages() {
    assert_eq!(
        Zbase32IdError::InvalidLength.to_string(),
        "Invalid Zbase32 ID: length must be 8 characters"
    );
    assert_eq!(
        Zbase32IdError::InvalidCharacters.to_string(),
        "Invalid Zbase32 ID: contains invalid characters"
    );
    assert_eq!(
        Zbase32IdError::Empty.to_string(),
        "Invalid Zbase32 ID: empty string"
    );
}

#[test]
fn error_messages_read_back() {
    for e in [
        Zbase32IdError::InvalidLength,
        Zbase32IdError::InvalidCharacters,
        Zbase32IdError::Empty,
    ] {
        assert_eq!(Zbase32IdError::from_message(&e.to_string()), Ok(e));
        assert_eq!(Zbase32IdError::from_str(&e.to_string()), Ok(e));
    }
}

#[test]
fn unknown_error_message() {
    assert_eq!(
        Zbase32IdError::from_message("oops"),
        Err("Unknown Zbase32 ID error: oops".to_string())
    );
    assert_eq!(
        Zbase32IdError::from_str(""),
        Err("Unknown Zbase32 ID error: ".to_string())
    );
}
