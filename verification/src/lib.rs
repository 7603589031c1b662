//! Biblioteca de fundamentos: um livro-razao de contas bancarias com
//! deposito, saque, transferencia com compensacao e desativacao, alem de
//! utilitarios verificados de matematica inteira, validacao de dados
//! cadastrais, texto e classificacao.

pub mod cadastro;
pub mod conta;
pub mod historico;
pub mod matematica;
pub mod notas;
pub mod temperatura;
pub mod tempo;
pub mod texto;
pub mod validacao;
