//! Leitura do relogio monotonico para medir a duracao de um calculo. O
//! valor lido depende do momento da chamada, entao nada se promete dele.

use vstd::prelude::*;

verus! {

#[verifier::external_type_specification]
#[verifier::external_body]
pub struct ExInstant(std::time::Instant);

/// Apoia-se em std::time::Instant::now: uma leitura do relogio monotonico.
#[verifier::external_body]
pub fn agora() -> std::time::Instant {
    std::time::Instant::now()
}

/// Apoia-se em std::time::Instant::elapsed: o tempo passado desde a
/// leitura dada ate o momento da chamada.
#[verifier::external_body]
pub fn decorrido(inicio: &std::time::Instant) -> std::time::Duration {
    inicio.elapsed()
}

/// Apoia-se em std::time::Duration::as_millis: a duracao em milissegundos
/// inteiros.
#[verifier::external_body]
pub fn em_milissegundos(duracao: &std::time::Duration) -> u128 {
    duracao.as_millis()
}

} // verus!
