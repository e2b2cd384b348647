//! In-app translation table and the bridge to the process's gettext catalogs.
//!
//! `Lang` is the UI language; `tr` looks a key up in the built-in tables,
//! falling back to English and then to the key itself, so no label is blank.

use vstd::prelude::*;
use crate::text::{ascii_lower, ascii_lowercase, has_prefix, starts_with, str_eq, to_owned_string};

verus! {

/// The languages the built-in table covers.
#[derive(Debug, Clone, Copy, PartialEq, Eq, Structural, Default)]
pub enum Lang {
    #[default]
    En,
    PtBr,
}

/// A locale names Portuguese when, ASCII-lower-cased, it starts with "pt".
pub open spec fn locale_is_portuguese(locale: Seq<char>) -> bool {
    has_prefix(locale.map_values(|c: char| ascii_lower(c)), "pt"@)
}

impl Lang {
    /// Map an install locale string (e.g. "pt_BR", "en_US") to a UI language.
    pub fn from_locale(locale: &str) -> (lang: Lang)
        ensures
            lang == (if locale_is_portuguese(locale@) { Lang::PtBr } else { Lang::En }),
    {
        let lower = ascii_lowercase(locale);
        if starts_with(lower.as_str(), "pt") {
            Lang::PtBr
        } else {
            Lang::En
        }
    }
}

/// `gettextrs::gettext`: the translation of `msgid` in the message catalogs
/// bound for the process's text domain and locale, or `msgid` itself where the
/// catalogs hold none. What comes back depends on the locale and on the
/// catalogs installed on the machine, so no clause states it. The crate panics
/// on a `msgid` with an interior NUL byte, which `requires` leaves out, and on a
/// catalog entry that is not UTF-8, a property of the machine left unstated.
#[verifier::external_body]
pub(crate) fn gettext(msgid: &str) -> (translated: String)
    requires
        !msgid@.contains('\0'),
{
    gettextrs::gettext(msgid)
}

/// The text shown for `key` in `lang`: the language's own entry, else the
/// English entry, else the key itself.
pub open spec fn tr_text(lang: Lang, key: Seq<char>) -> Seq<char> {
    let en = en_text(key);
    match lang {
        Lang::PtBr => {
            let pt = pt_br_text(key);
            if pt.len() != 0 {
                pt
            } else if en.len() != 0 {
                en
            } else {
                key
            }
        },
        Lang::En => if en.len() != 0 {
            en
        } else {
            key
        },
    }
}

/// Translate a key for the given language. English is the base; pt_BR overrides.
pub fn tr(lang: Lang, key: &str) -> (text: String)
    ensures
        text@ == tr_text(lang, key@),
{
    let en = en_table(key);
    match lang {
        Lang::PtBr => {
            let pt = pt_br_table(key);
            if pt.unicode_len() != 0 {
                to_owned_string(pt)
            } else if en.unicode_len() != 0 {
                to_owned_string(en)
            } else {
                to_owned_string(key)
            }
        },
        Lang::En => {
            if en.unicode_len() != 0 {
                to_owned_string(en)
            } else {
                to_owned_string(key)
            }
        },
    }
}

/// The English table; empty for keys it does not hold.
pub open spec fn en_text(key: Seq<char>) -> Seq<char> {
    if key == "nav.back"@ {
        "Back"@
    } else if key == "nav.next"@ {
        "Next"@
    } else if key == "nav.install"@ {
        "Install"@
    } else if key == "nav.terminal"@ {
        "Open terminal"@
    } else if key == "confirm.heading"@ {
        "Confirm installation"@
    } else if key == "confirm.body"@ {
        "All data on the selected disk will be permanently erased and the system will be installed. This cannot be undone."@
    } else if key == "confirm.body.manual"@ {
        "The staged partition changes will now be written to disk and Sirius will be installed. Formatted or deleted data cannot be recovered."@
    } else if key == "confirm.cancel"@ {
        "Cancel"@
    } else if key == "confirm.install"@ {
        "Erase disk and install"@
    } else if key == "welcome.title"@ {
        "Welcome"@
    } else if key == "welcome.desc"@ {
        "This assistant will guide you through installation."@
    } else if key == "network.title"@ {
        "Network"@
    } else if key == "network.desc"@ {
        "Connect to a network. A connection is optional but recommended."@
    } else if key == "network.body"@ {
        "Choose a Wi-Fi network below."@
    } else if key == "network.available"@ {
        "Available Wi-Fi networks"@
    } else if key == "network.scanning"@ {
        "Looking for networks…"@
    } else if key == "network.connect"@ {
        "Connect"@
    } else if key == "network.connected"@ {
        "Connected"@
    } else if key == "network.refresh"@ {
        "Scan again"@
    } else if key == "network.open"@ {
        "Open network"@
    } else if key == "network.wpa"@ {
        "WPA/WPA2 Personal"@
    } else if key == "network.wpa3"@ {
        "WPA3 Personal"@
    } else if key == "network.unsupported"@ {
        "Enterprise or legacy security is not supported here"@
    } else if key == "network.connect_to"@ {
        "Connect to"@
    } else if key == "network.password"@ {
        "Enter the Wi-Fi password."@
    } else if key == "keyboard.title"@ {
        "Keyboard layout"@
    } else if key == "keyboard.test"@ {
        "Type here to test your layout"@
    } else if key == "timezone.title"@ {
        "Time zone"@
    } else if key == "partition.title"@ {
        "Partitioning"@
    } else if key == "partition.group"@ {
        "Automatic"@
    } else if key == "partition.encrypt"@ {
        "Encrypt the disk (LUKS)"@
    } else if key == "partition.tpm"@ {
        "Bind encryption to TPM"@
    } else if key == "user.title"@ {
        "Create your account"@
    } else if key == "user.full_name"@ {
        "Full name"@
    } else if key == "user.username"@ {
        "Username"@
    } else if key == "user.password"@ {
        "Password"@
    } else if key == "user.confirm"@ {
        "Confirm password"@
    } else if key == "user.hostname"@ {
        "Hostname"@
    } else if key == "summary.title"@ {
        "Ready to install"@
    } else if key == "summary.desc"@ {
        "Review your choices before writing changes to disk."@
    } else if key == "summary.language"@ {
        "Language"@
    } else if key == "summary.keyboard"@ {
        "Keyboard"@
    } else if key == "summary.timezone"@ {
        "Time zone"@
    } else if key == "summary.disk"@ {
        "Disk"@
    } else if key == "summary.encryption"@ {
        "Encryption"@
    } else if key == "summary.user"@ {
        "User"@
    } else if key == "summary.hostname"@ {
        "Hostname"@
    } else if key == "summary.enabled"@ {
        "enabled"@
    } else if key == "summary.disabled"@ {
        "disabled"@
    } else if key == "summary.manual"@ {
        "manual layout"@
    } else if key == "storage.title"@ {
        "Storage"@
    } else if key == "storage.desc"@ {
        "Choose a disk and how Sirius should use it. Changes are applied only after confirmation."@
    } else if key == "storage.disk"@ {
        "Destination disk"@
    } else if key == "storage.automatic_mode"@ {
        "Automatic partitioning"@
    } else if key == "storage.automatic_mode.desc"@ {
        "Erase the disk and create the needed partitions automatically."@
    } else if key == "storage.erase_notice"@ {
        "All data on this disk will be erased."@
    } else if key == "storage.discard"@ {
        "Discard changes"@
    } else if key == "storage.no_disk_selected"@ {
        "Select a disk to continue."@
    } else if key == "storage.layout"@ {
        "Disk layout"@
    } else if key == "storage.table"@ {
        "Table"@
    } else if key == "storage.close"@ {
        "Close"@
    } else if key == "storage.done"@ {
        "Done"@
    } else if key == "storage.delete"@ {
        "Delete Partition"@
    } else if key == "storage.not_mounted"@ {
        "Not mounted"@
    } else if key == "storage.unformatted"@ {
        "Unformatted"@
    } else if key == "storage.unknown"@ {
        "Unknown"@
    } else if key == "storage.new_partition"@ {
        "New Sirius Partition"@
    } else if key == "storage.efi_partition"@ {
        "EFI System Partition"@
    } else if key == "storage.root_partition"@ {
        "Sirius Root"@
    } else if key == "storage.swap_partition"@ {
        "Swap"@
    } else if key == "storage.volumes"@ {
        "Volumes and partitions"@
    } else if key == "storage.free"@ {
        "Unallocated space"@
    } else if key == "storage.pending"@ {
        "New partition pending"@
    } else if key == "storage.edit"@ {
        "Edit partition"@
    } else if key == "storage.create"@ {
        "Create partition"@
    } else if key == "storage.apply"@ {
        "Apply"@
    } else if key == "storage.filesystem"@ {
        "Filesystem"@
    } else if key == "storage.size"@ {
        "Size (GiB)"@
    } else if key == "storage.mount.placeholder"@ {
        "Mount point: / or /boot/efi"@
    } else if key == "storage.mount"@ {
        "Mount Point"@
    } else if key == "storage.label"@ {
        "Label"@
    } else if key == "storage.save_changes"@ {
        "Save Changes"@
    } else if key == "storage.unavailable"@ {
        "Disks could not be loaded"@
    } else if key == "storage.none"@ {
        "No available disks"@
    } else if key == "storage.none.desc"@ {
        "Connect a disk or unmount its filesystems and reopen Sirius."@
    } else if key == "storage.in_use"@ {
        "in use"@
    } else if key == "diagnostics.title"@ {
        "System compatibility"@
    } else if key == "diagnostics.desc"@ {
        "Sirius checked your hardware before installing."@
    } else if key == "disk.title"@ {
        "Select a disk"@
    } else if key == "disk.desc"@ {
        "The chosen disk will be erased."@
    } else if key == "disk.none"@ {
        "No disks found"@
    } else if key == "progress.title"@ {
        "Installing the system"@
    } else if key == "progress.logs"@ {
        "Show install log"@
    } else if key == "progress.failed.title"@ {
        "Installation failed"@
    } else if key == "progress.failed.desc"@ {
        "Something went wrong during installation. Check the log below for details. No changes were finished — you can reboot and try again."@
    } else if key == "finished.title"@ {
        "Installation complete"@
    } else if key == "finished.desc"@ {
        "The system is installed. Reboot to start using it."@
    } else if key == "finished.restart"@ {
        "Restart now"@
    } else {
        Seq::empty()
    }
}

/// The Brazilian Portuguese table; empty for keys it does not hold.
pub open spec fn pt_br_text(key: Seq<char>) -> Seq<char> {
    if key == "nav.back"@ {
        "Voltar"@
    } else if key == "nav.next"@ {
        "Avançar"@
    } else if key == "nav.install"@ {
        "Instalar"@
    } else if key == "nav.terminal"@ {
        "Abrir terminal"@
    } else if key == "confirm.heading"@ {
        "Confirmar instalação"@
    } else if key == "confirm.body"@ {
        "Todos os dados do disco selecionado serão apagados permanentemente e o sistema será instalado. Isso não pode ser desfeito."@
    } else if key == "confirm.body.manual"@ {
        "As mudanças de partição agendadas serão gravadas no disco e o Sirius será instalado. Dados formatados ou excluídos não poderão ser recuperados."@
    } else if key == "confirm.cancel"@ {
        "Cancelar"@
    } else if key == "confirm.install"@ {
        "Apagar disco e instalar"@
    } else if key == "welcome.title"@ {
        "Bem-vindo"@
    } else if key == "welcome.desc"@ {
        "Este assistente vai guiá-lo pela instalação."@
    } else if key == "network.title"@ {
        "Rede"@
    } else if key == "network.desc"@ {
        "Conecte-se a uma rede. A conexão é opcional, mas recomendada."@
    } else if key == "network.body"@ {
        "Escolha uma rede Wi-Fi abaixo."@
    } else if key == "network.available"@ {
        "Redes Wi-Fi disponíveis"@
    } else if key == "network.scanning"@ {
        "Procurando redes…"@
    } else if key == "network.connect"@ {
        "Conectar"@
    } else if key == "network.connected"@ {
        "Conectado"@
    } else if key == "network.refresh"@ {
        "Procurar novamente"@
    } else if key == "network.open"@ {
        "Rede aberta"@
    } else if key == "network.wpa"@ {
        "WPA/WPA2 pessoal"@
    } else if key == "network.wpa3"@ {
        "WPA3 pessoal"@
    } else if key == "network.unsupported"@ {
        "Segurança enterprise ou legada não é suportada aqui"@
    } else if key == "network.connect_to"@ {
        "Conectar a"@
    } else if key == "network.password"@ {
        "Digite a senha do Wi-Fi."@
    } else if key == "keyboard.title"@ {
        "Layout do teclado"@
    } else if key == "keyboard.test"@ {
        "Digite aqui para testar o layout"@
    } else if key == "timezone.title"@ {
        "Fuso horário"@
    } else if key == "partition.title"@ {
        "Particionamento"@
    } else if key == "partition.group"@ {
        "Automático"@
    } else if key == "partition.encrypt"@ {
        "Criptografar o disco (LUKS)"@
    } else if key == "partition.tpm"@ {
        "Vincular criptografia ao TPM"@
    } else if key == "user.title"@ {
        "Crie sua conta"@
    } else if key == "user.full_name"@ {
        "Nome completo"@
    } else if key == "user.username"@ {
        "Nome de usuário"@
    } else if key == "user.password"@ {
        "Senha"@
    } else if key == "user.confirm"@ {
        "Confirmar senha"@
    } else if key == "user.hostname"@ {
        "Nome da máquina"@
    } else if key == "summary.title"@ {
        "Pronto para instalar"@
    } else if key == "summary.desc"@ {
        "Revise suas escolhas antes de gravar as mudanças no disco."@
    } else if key == "summary.language"@ {
        "Idioma"@
    } else if key == "summary.keyboard"@ {
        "Teclado"@
    } else if key == "summary.timezone"@ {
        "Fuso horário"@
    } else if key == "summary.disk"@ {
        "Disco"@
    } else if key == "summary.encryption"@ {
        "Criptografia"@
    } else if key == "summary.user"@ {
        "Usuário"@
    } else if key == "summary.hostname"@ {
        "Nome da máquina"@
    } else if key == "summary.enabled"@ {
        "ativada"@
    } else if key == "summary.disabled"@ {
        "desativada"@
    } else if key == "summary.manual"@ {
        "layout manual"@
    } else if key == "storage.title"@ {
        "Armazenamento"@
    } else if key == "storage.desc"@ {
        "Escolha um disco e como o Sirius deve usá-lo. As mudanças só serão aplicadas após a confirmação."@
    } else if key == "storage.disk"@ {
        "Disco de destino"@
    } else if key == "storage.automatic_mode"@ {
        "Particionamento automático"@
    } else if key == "storage.automatic_mode.desc"@ {
        "Apagar o disco e criar as partições necessárias automaticamente."@
    } else if key == "storage.erase_notice"@ {
        "Todos os dados deste disco serão apagados."@
    } else if key == "storage.discard"@ {
        "Descartar alterações"@
    } else if key == "storage.no_disk_selected"@ {
        "Selecione um disco para continuar."@
    } else if key == "storage.layout"@ {
        "Mapa do disco"@
    } else if key == "storage.table"@ {
        "Tabela"@
    } else if key == "storage.close"@ {
        "Fechar"@
    } else if key == "storage.done"@ {
        "Concluído"@
    } else if key == "storage.delete"@ {
        "Excluir Partição"@
    } else if key == "storage.not_mounted"@ {
        "Não montado"@
    } else if key == "storage.unformatted"@ {
        "Não formatado"@
    } else if key == "storage.unknown"@ {
        "Desconhecido"@
    } else if key == "storage.new_partition"@ {
        "Nova Partição Sirius"@
    } else if key == "storage.efi_partition"@ {
        "Sistema EFI"@
    } else if key == "storage.root_partition"@ {
        "Raiz do Sirius"@
    } else if key == "storage.swap_partition"@ {
        "Memória Virtual"@
    } else if key == "storage.volumes"@ {
        "Volumes e partições"@
    } else if key == "storage.free"@ {
        "Espaço não alocado"@
    } else if key == "storage.pending"@ {
        "Nova partição pendente"@
    } else if key == "storage.edit"@ {
        "Editar partição"@
    } else if key == "storage.create"@ {
        "Criar partição"@
    } else if key == "storage.apply"@ {
        "Aplicar"@
    } else if key == "storage.filesystem"@ {
        "Sistema de arquivos"@
    } else if key == "storage.size"@ {
        "Tamanho (GiB)"@
    } else if key == "storage.mount.placeholder"@ {
        "Ponto de montagem: / ou /boot/efi"@
    } else if key == "storage.mount"@ {
        "Ponto de Montagem"@
    } else if key == "storage.label"@ {
        "Rótulo"@
    } else if key == "storage.save_changes"@ {
        "Salvar Alterações"@
    } else if key == "storage.unavailable"@ {
        "Não foi possível carregar os discos"@
    } else if key == "storage.none"@ {
        "Nenhum disco disponível"@
    } else if key == "storage.none.desc"@ {
        "Conecte um disco ou desmonte seus sistemas de arquivos e reabra o Sirius."@
    } else if key == "storage.in_use"@ {
        "em uso"@
    } else if key == "diagnostics.title"@ {
        "Compatibilidade do sistema"@
    } else if key == "diagnostics.desc"@ {
        "O Sirius verificou seu hardware antes de instalar."@
    } else if key == "disk.title"@ {
        "Selecione um disco"@
    } else if key == "disk.desc"@ {
        "O disco escolhido será apagado."@
    } else if key == "disk.none"@ {
        "Nenhum disco encontrado"@
    } else if key == "progress.title"@ {
        "Instalando o sistema"@
    } else if key == "progress.logs"@ {
        "Mostrar registro da instalação"@
    } else if key == "progress.failed.title"@ {
        "Falha na instalação"@
    } else if key == "progress.failed.desc"@ {
        "Algo deu errado durante a instalação. Veja o registro abaixo para detalhes. Nada foi concluído — você pode reiniciar e tentar de novo."@
    } else if key == "finished.title"@ {
        "Instalação concluída"@
    } else if key == "finished.desc"@ {
        "O sistema foi instalado. Reinicie para começar a usá-lo."@
    } else if key == "finished.restart"@ {
        "Reiniciar agora"@
    } else {
        Seq::empty()
    }
}

/// Executable lookup in the English table.
fn en_table(key: &str) -> (r: &'static str)
    ensures
        r@ == en_text(key@),
{
    if str_eq(key, "nav.back") {
        return "Back";
    }
    if str_eq(key, "nav.next") {
        return "Next";
    }
    if str_eq(key, "nav.install") {
        return "Install";
    }
    if str_eq(key, "nav.terminal") {
        return "Open terminal";
    }
    if str_eq(key, "confirm.heading") {
        return "Confirm installation";
    }
    if str_eq(key, "confirm.body") {
        return "All data on the selected disk will be permanently erased and the system will be installed. This cannot be undone.";
    }
    if str_eq(key, "confirm.body.manual") {
        return "The staged partition changes will now be written to disk and Sirius will be installed. Formatted or deleted data cannot be recovered.";
    }
    if str_eq(key, "confirm.cancel") {
        return "Cancel";
    }
    if str_eq(key, "confirm.install") {
        return "Erase disk and install";
    }
    if str_eq(key, "welcome.title") {
        return "Welcome";
    }
    if str_eq(key, "welcome.desc") {
        return "This assistant will guide you through installation.";
    }
    if str_eq(key, "network.title") {
        return "Network";
    }
    if str_eq(key, "network.desc") {
        return "Connect to a network. A connection is optional but recommended.";
    }
    if str_eq(key, "network.body") {
        return "Choose a Wi-Fi network below.";
    }
    if str_eq(key, "network.available") {
        return "Available Wi-Fi networks";
    }
    if str_eq(key, "network.scanning") {
        return "Looking for networks…";
    }
    if str_eq(key, "network.connect") {
        return "Connect";
    }
    if str_eq(key, "network.connected") {
        return "Connected";
    }
    if str_eq(key, "network.refresh") {
        return "Scan again";
    }
    if str_eq(key, "network.open") {
        return "Open network";
    }
    if str_eq(key, "network.wpa") {
        return "WPA/WPA2 Personal";
    }
    if str_eq(key, "network.wpa3") {
        return "WPA3 Personal";
    }
    if str_eq(key, "network.unsupported") {
        return "Enterprise or legacy security is not supported here";
    }
    if str_eq(key, "network.connect_to") {
        return "Connect to";
    }
    if str_eq(key, "network.password") {
        return "Enter the Wi-Fi password.";
    }
    if str_eq(key, "keyboard.title") {
        return "Keyboard layout";
    }
    if str_eq(key, "keyboard.test") {
        return "Type here to test your layout";
    }
    if str_eq(key, "timezone.title") {
        return "Time zone";
    }
    if str_eq(key, "partition.title") {
        return "Partitioning";
    }
    if str_eq(key, "partition.group") {
        return "Automatic";
    }
    if str_eq(key, "partition.encrypt") {
        return "Encrypt the disk (LUKS)";
    }
    if str_eq(key, "partition.tpm") {
        return "Bind encryption to TPM";
    }
    if str_eq(key, "user.title") {
        return "Create your account";
    }
    if str_eq(key, "user.full_name") {
        return "Full name";
    }
    if str_eq(key, "user.username") {
        return "Username";
    }
    if str_eq(key, "user.password") {
        return "Password";
    }
    if str_eq(key, "user.confirm") {
        return "Confirm password";
    }
    if str_eq(key, "user.hostname") {
        return "Hostname";
    }
    if str_eq(key, "summary.title") {
        return "Ready to install";
    }
    if str_eq(key, "summary.desc") {
        return "Review your choices before writing changes to disk.";
    }
    if str_eq(key, "summary.language") {
        return "Language";
    }
    if str_eq(key, "summary.keyboard") {
        return "Keyboard";
    }
    if str_eq(key, "summary.timezone") {
        return "Time zone";
    }
    if str_eq(key, "summary.disk") {
        return "Disk";
    }
    if str_eq(key, "summary.encryption") {
        return "Encryption";
    }
    if str_eq(key, "summary.user") {
        return "User";
    }
    if str_eq(key, "summary.hostname") {
        return "Hostname";
    }
    if str_eq(key, "summary.enabled") {
        return "enabled";
    }
    if str_eq(key, "summary.disabled") {
        return "disabled";
    }
    if str_eq(key, "summary.manual") {
        return "manual layout";
    }
    if str_eq(key, "storage.title") {
        return "Storage";
    }
    if str_eq(key, "storage.desc") {
        return "Choose a disk and how Sirius should use it. Changes are applied only after confirmation.";
    }
    if str_eq(key, "storage.disk") {
        return "Destination disk";
    }
    if str_eq(key, "storage.automatic_mode") {
        return "Automatic partitioning";
    }
    if str_eq(key, "storage.automatic_mode.desc") {
        return "Erase the disk and create the needed partitions automatically.";
    }
    if str_eq(key, "storage.erase_notice") {
        return "All data on this disk will be erased.";
    }
    if str_eq(key, "storage.discard") {
        return "Discard changes";
    }
    if str_eq(key, "storage.no_disk_selected") {
        return "Select a disk to continue.";
    }
    if str_eq(key, "storage.layout") {
        return "Disk layout";
    }
    if str_eq(key, "storage.table") {
        return "Table";
    }
    if str_eq(key, "storage.close") {
        return "Close";
    }
    if str_eq(key, "storage.done") {
        return "Done";
    }
    if str_eq(key, "storage.delete") {
        return "Delete Partition";
    }
    if str_eq(key, "storage.not_mounted") {
        return "Not mounted";
    }
    if str_eq(key, "storage.unformatted") {
        return "Unformatted";
    }
    if str_eq(key, "storage.unknown") {
        return "Unknown";
    }
    if str_eq(key, "storage.new_partition") {
        return "New Sirius Partition";
    }
    if str_eq(key, "storage.efi_partition") {
        return "EFI System Partition";
    }
    if str_eq(key, "storage.root_partition") {
        return "Sirius Root";
    }
    if str_eq(key, "storage.swap_partition") {
        return "Swap";
    }
    if str_eq(key, "storage.volumes") {
        return "Volumes and partitions";
    }
    if str_eq(key, "storage.free") {
        return "Unallocated space";
    }
    if str_eq(key, "storage.pending") {
        return "New partition pending";
    }
    if str_eq(key, "storage.edit") {
        return "Edit partition";
    }
    if str_eq(key, "storage.create") {
        return "Create partition";
    }
    if str_eq(key, "storage.apply") {
        return "Apply";
    }
    if str_eq(key, "storage.filesystem") {
        return "Filesystem";
    }
    if str_eq(key, "storage.size") {
        return "Size (GiB)";
    }
    if str_eq(key, "storage.mount.placeholder") {
        return "Mount point: / or /boot/efi";
    }
    if str_eq(key, "storage.mount") {
        return "Mount Point";
    }
    if str_eq(key, "storage.label") {
        return "Label";
    }
    if str_eq(key, "storage.save_changes") {
        return "Save Changes";
    }
    if str_eq(key, "storage.unavailable") {
        return "Disks could not be loaded";
    }
    if str_eq(key, "storage.none") {
        return "No available disks";
    }
    if str_eq(key, "storage.none.desc") {
        return "Connect a disk or unmount its filesystems and reopen Sirius.";
    }
    if str_eq(key, "storage.in_use") {
        return "in use";
    }
    if str_eq(key, "diagnostics.title") {
        return "System compatibility";
    }
    if str_eq(key, "diagnostics.desc") {
        return "Sirius checked your hardware before installing.";
    }
    if str_eq(key, "disk.title") {
        return "Select a disk";
    }
    if str_eq(key, "disk.desc") {
        return "The chosen disk will be erased.";
    }
    if str_eq(key, "disk.none") {
        return "No disks found";
    }
    if str_eq(key, "progress.title") {
        return "Installing the system";
    }
    if str_eq(key, "progress.logs") {
        return "Show install log";
    }
    if str_eq(key, "progress.failed.title") {
        return "Installation failed";
    }
    if str_eq(key, "progress.failed.desc") {
        return "Something went wrong during installation. Check the log below for details. No changes were finished — you can reboot and try again.";
    }
    if str_eq(key, "finished.title") {
        return "Installation complete";
    }
    if str_eq(key, "finished.desc") {
        return "The system is installed. Reboot to start using it.";
    }
    if str_eq(key, "finished.restart") {
        return "Restart now";
    }
    let empty = "";
    proof {
        reveal_strlit("");
    }
    assert(empty@ =~= Seq::<char>::empty());
    empty
}

/// Executable lookup in the Brazilian Portuguese table.
fn pt_br_table(key: &str) -> (r: &'static str)
    ensures
        r@ == pt_br_text(key@),
{
    if str_eq(key, "nav.back") {
        return "Voltar";
    }
    if str_eq(key, "nav.next") {
        return "Avançar";
    }
    if str_eq(key, "nav.install") {
        return "Instalar";
    }
    if str_eq(key, "nav.terminal") {
        return "Abrir terminal";
    }
    if str_eq(key, "confirm.heading") {
        return "Confirmar instalação";
    }
    if str_eq(key, "confirm.body") {
        return "Todos os dados do disco selecionado serão apagados permanentemente e o sistema será instalado. Isso não pode ser desfeito.";
    }
    if str_eq(key, "confirm.body.manual") {
        return "As mudanças de partição agendadas serão gravadas no disco e o Sirius será instalado. Dados formatados ou excluídos não poderão ser recuperados.";
    }
    if str_eq(key, "confirm.cancel") {
        return "Cancelar";
    }
    if str_eq(key, "confirm.install") {
        return "Apagar disco e instalar";
    }
    if str_eq(key, "welcome.title") {
        return "Bem-vindo";
    }
    if str_eq(key, "welcome.desc") {
        return "Este assistente vai guiá-lo pela instalação.";
    }
    if str_eq(key, "network.title") {
        return "Rede";
    }
    if str_eq(key, "network.desc") {
        return "Conecte-se a uma rede. A conexão é opcional, mas recomendada.";
    }
    if str_eq(key, "network.body") {
        return "Escolha uma rede Wi-Fi abaixo.";
    }
    if str_eq(key, "network.available") {
        return "Redes Wi-Fi disponíveis";
    }
    if str_eq(key, "network.scanning") {
        return "Procurando redes…";
    }
    if str_eq(key, "network.connect") {
        return "Conectar";
    }
    if str_eq(key, "network.connected") {
        return "Conectado";
    }
    if str_eq(key, "network.refresh") {
        return "Procurar novamente";
    }
    if str_eq(key, "network.open") {
        return "Rede aberta";
    }
    if str_eq(key, "network.wpa") {
        return "WPA/WPA2 pessoal";
    }
    if str_eq(key, "network.wpa3") {
        return "WPA3 pessoal";
    }
    if str_eq(key, "network.unsupported") {
        return "Segurança enterprise ou legada não é suportada aqui";
    }
    if str_eq(key, "network.connect_to") {
        return "Conectar a";
    }
    if str_eq(key, "network.password") {
        return "Digite a senha do Wi-Fi.";
    }
    if str_eq(key, "keyboard.title") {
        return "Layout do teclado";
    }
    if str_eq(key, "keyboard.test") {
        return "Digite aqui para testar o layout";
    }
    if str_eq(key, "timezone.title") {
        return "Fuso horário";
    }
    if str_eq(key, "partition.title") {
        return "Particionamento";
    }
    if str_eq(key, "partition.group") {
        return "Automático";
    }
    if str_eq(key, "partition.encrypt") {
        return "Criptografar o disco (LUKS)";
    }
    if str_eq(key, "partition.tpm") {
        return "Vincular criptografia ao TPM";
    }
    if str_eq(key, "user.title") {
        return "Crie sua conta";
    }
    if str_eq(key, "user.full_name") {
        return "Nome completo";
    }
    if str_eq(key, "user.username") {
        return "Nome de usuário";
    }
    if str_eq(key, "user.password") {
        return "Senha";
    }
    if str_eq(key, "user.confirm") {
        return "Confirmar senha";
    }
    if str_eq(key, "user.hostname") {
        return "Nome da máquina";
    }
    if str_eq(key, "summary.title") {
        return "Pronto para instalar";
    }
    if str_eq(key, "summary.desc") {
        return "Revise suas escolhas antes de gravar as mudanças no disco.";
    }
    if str_eq(key, "summary.language") {
        return "Idioma";
    }
    if str_eq(key, "summary.keyboard") {
        return "Teclado";
    }
    if str_eq(key, "summary.timezone") {
        return "Fuso horário";
    }
    if str_eq(key, "summary.disk") {
        return "Disco";
    }
    if str_eq(key, "summary.encryption") {
        return "Criptografia";
    }
    if str_eq(key, "summary.user") {
        return "Usuário";
    }
    if str_eq(key, "summary.hostname") {
        return "Nome da máquina";
    }
    if str_eq(key, "summary.enabled") {
        return "ativada";
    }
    if str_eq(key, "summary.disabled") {
        return "desativada";
    }
    if str_eq(key, "summary.manual") {
        return "layout manual";
    }
    if str_eq(key, "storage.title") {
        return "Armazenamento";
    }
    if str_eq(key, "storage.desc") {
        return "Escolha um disco e como o Sirius deve usá-lo. As mudanças só serão aplicadas após a confirmação.";
    }
    if str_eq(key, "storage.disk") {
        return "Disco de destino";
    }
    if str_eq(key, "storage.automatic_mode") {
        return "Particionamento automático";
    }
    if str_eq(key, "storage.automatic_mode.desc") {
        return "Apagar o disco e criar as partições necessárias automaticamente.";
    }
    if str_eq(key, "storage.erase_notice") {
        return "Todos os dados deste disco serão apagados.";
    }
    if str_eq(key, "storage.discard") {
        return "Descartar alterações";
    }
    if str_eq(key, "storage.no_disk_selected") {
        return "Selecione um disco para continuar.";
    }
    if str_eq(key, "storage.layout") {
        return "Mapa do disco";
    }
    if str_eq(key, "storage.table") {
        return "Tabela";
    }
    if str_eq(key, "storage.close") {
        return "Fechar";
    }
    if str_eq(key, "storage.done") {
        return "Concluído";
    }
    if str_eq(key, "storage.delete") {
        return "Excluir Partição";
    }
    if str_eq(key, "storage.not_mounted") {
        return "Não montado";
    }
    if str_eq(key, "storage.unformatted") {
        return "Não formatado";
    }
    if str_eq(key, "storage.unknown") {
        return "Desconhecido";
    }
    if str_eq(key, "storage.new_partition") {
        return "Nova Partição Sirius";
    }
    if str_eq(key, "storage.efi_partition") {
        return "Sistema EFI";
    }
    if str_eq(key, "storage.root_partition") {
        return "Raiz do Sirius";
    }
    if str_eq(key, "storage.swap_partition") {
        return "Memória Virtual";
    }
    if str_eq(key, "storage.volumes") {
        return "Volumes e partições";
    }
    if str_eq(key, "storage.free") {
        return "Espaço não alocado";
    }
    if str_eq(key, "storage.pending") {
        return "Nova partição pendente";
    }
    if str_eq(key, "storage.edit") {
        return "Editar partição";
    }
    if str_eq(key, "storage.create") {
        return "Criar partição";
    }
    if str_eq(key, "storage.apply") {
        return "Aplicar";
    }
    if str_eq(key, "storage.filesystem") {
        return "Sistema de arquivos";
    }
    if str_eq(key, "storage.size") {
        return "Tamanho (GiB)";
    }
    if str_eq(key, "storage.mount.placeholder") {
        return "Ponto de montagem: / ou /boot/efi";
    }
    if str_eq(key, "storage.mount") {
        return "Ponto de Montagem";
    }
    if str_eq(key, "storage.label") {
        return "Rótulo";
    }
    if str_eq(key, "storage.save_changes") {
        return "Salvar Alterações";
    }
    if str_eq(key, "storage.unavailable") {
        return "Não foi possível carregar os discos";
    }
    if str_eq(key, "storage.none") {
        return "Nenhum disco disponível";
    }
    if str_eq(key, "storage.none.desc") {
        return "Conecte um disco ou desmonte seus sistemas de arquivos e reabra o Sirius.";
    }
    if str_eq(key, "storage.in_use") {
        return "em uso";
    }
    if str_eq(key, "diagnostics.title") {
        return "Compatibilidade do sistema";
    }
    if str_eq(key, "diagnostics.desc") {
        return "O Sirius verificou seu hardware antes de instalar.";
    }
    if str_eq(key, "disk.title") {
        return "Selecione um disco";
    }
    if str_eq(key, "disk.desc") {
        return "O disco escolhido será apagado.";
    }
    if str_eq(key, "disk.none") {
        return "Nenhum disco encontrado";
    }
    if str_eq(key, "progress.title") {
        return "Instalando o sistema";
    }
    if str_eq(key, "progress.logs") {
        return "Mostrar registro da instalação";
    }
    if str_eq(key, "progress.failed.title") {
        return "Falha na instalação";
    }
    if str_eq(key, "progress.failed.desc") {
        return "Algo deu errado durante a instalação. Veja o registro abaixo para detalhes. Nada foi concluído — você pode reiniciar e tentar de novo.";
    }
    if str_eq(key, "finished.title") {
        return "Instalação concluída";
    }
    if str_eq(key, "finished.desc") {
        return "O sistema foi instalado. Reinicie para começar a usá-lo.";
    }
    if str_eq(key, "finished.restart") {
        return "Reiniciar agora";
    }
    let empty = "";
    proof {
        reveal_strlit("");
    }
    assert(empty@ =~= Seq::<char>::empty());
    empty
}

/// No label is ever blank: a non-empty key always translates to non-empty
/// text, in every language (the key itself being the last fallback).
pub proof fn law_translation_never_blank(lang: Lang, key: Seq<char>)
    requires
        key.len() > 0,
    ensures
        tr_text(lang, key).len() > 0,
{
}

/// A key missing from both tables shows as itself.
pub proof fn law_unknown_key_shows_itself(lang: Lang, key: Seq<char>)
    requires
        en_text(key).len() == 0,
        pt_br_text(key).len() == 0,
    ensures
        tr_text(lang, key) == key,
{
}

} // verus!
