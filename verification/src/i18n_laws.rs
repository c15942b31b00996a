//! What holds of the texts in every language.
use crate::i18n;
use crate::i18n::Language;
use vstd::prelude::*;

verus! {

/// Both languages have a text for the same keys.
pub proof fn languages_say_the_same(key: Seq<char>)
    ensures
        i18n::russian(key) is Some <==> i18n::english(key) is Some,
{
}

/// A key comes back unchanged just where the catalogue does not hold it, in either
/// language alike.
pub proof fn only_unknown_keys_come_back(key: Seq<char>)
    ensures
        i18n::text_for(Language::En, key) == key <==> i18n::english(key) is None,
        i18n::text_for(Language::Ru, key) == key <==> i18n::english(key) is None,
{
    languages_say_the_same(key);
    russian_texts_are_no_keys(key);
    english_texts_are_no_keys(key);
}

/// A Russian text is never the key that it stands for.
#[verifier::rlimit(60)]
proof fn russian_texts_are_no_keys(key: Seq<char>)
    ensures
        i18n::russian(key) != Some(key),
{
    if key == "home"@ {
        reveal_strlit("home");
        reveal_strlit("Главная");
        assert("home"@[0] != "Главная"@[0]);
    } else if key == "capture"@ {
        reveal_strlit("capture");
        reveal_strlit("Снимок");
        assert("capture"@[0] != "Снимок"@[0]);
    } else if key == "library"@ {
        reveal_strlit("library");
        reveal_strlit("Библиотека");
        assert("library"@[0] != "Библиотека"@[0]);
    } else if key == "settings"@ {
        reveal_strlit("settings");
        reveal_strlit("Настройки");
        assert("settings"@[0] != "Настройки"@[0]);
    } else if key == "new"@ {
        reveal_strlit("new");
        reveal_strlit("Сохранить текущее");
        assert("new"@[0] != "Сохранить текущее"@[0]);
    } else if key == "search"@ {
        reveal_strlit("search");
        reveal_strlit("Поиск рабочих окружений…");
        assert("search"@[0] != "Поиск рабочих окружений…"@[0]);
    } else if key == "open"@ {
        reveal_strlit("open");
        reveal_strlit("Открыть");
        assert("open"@[0] != "Открыть"@[0]);
    } else if key == "repair"@ {
        reveal_strlit("repair");
        reveal_strlit("Исправить");
        assert("repair"@[0] != "Исправить"@[0]);
    } else if key == "edit"@ {
        reveal_strlit("edit");
        reveal_strlit("Изменить");
        assert("edit"@[0] != "Изменить"@[0]);
    } else if key == "ready"@ {
        reveal_strlit("ready");
        reveal_strlit("Готово");
        assert("ready"@[0] != "Готово"@[0]);
    } else if key == "layout_changed"@ {
        reveal_strlit("layout_changed");
        reveal_strlit("Макет изменён");
        assert("layout_changed"@[0] != "Макет изменён"@[0]);
    } else if key == "offline"@ {
        reveal_strlit("offline");
        reveal_strlit("Niri недоступен");
        assert("offline"@[0] != "Niri недоступен"@[0]);
    } else if key == "missing_one"@ {
        reveal_strlit("missing_one");
        reveal_strlit("1 приложение отсутствует");
        assert("missing_one"@[0] != "1 приложение отсутствует"@[0]);
    } else if key == "missing_many"@ {
        reveal_strlit("missing_many");
        reveal_strlit("приложений отсутствуют");
        assert("missing_many"@[0] != "приложений отсутствуют"@[0]);
    } else if key == "ambiguous"@ {
        reveal_strlit("ambiguous");
        reveal_strlit("Нужно уточнить совпадение");
        assert("ambiguous"@[0] != "Нужно уточнить совпадение"@[0]);
    } else if key == "what_it_does"@ {
        reveal_strlit("what_it_does");
        reveal_strlit("Что делает Workbench");
        assert("what_it_does"@[0] != "Что делает Workbench"@[0]);
    } else if key == "what_it_does_body"@ {
        reveal_strlit("what_it_does_body");
        reveal_strlit("Сохраняет рабочие окружения, открывает их одной кнопкой и восстанавливает раскладку без лишних копий окон.");
        assert("what_it_does_body"@[0] != "Сохраняет рабочие окружения, открывает их одной кнопкой и восстанавливает раскладку без лишних копий окон."@[0]);
    } else if key == "open_hint"@ {
        reveal_strlit("open_hint");
        reveal_strlit("Открыть — запустить недостающее и восстановить макет · Исправить — только вернуть существующие окна");
        assert("open_hint"@[0] != "Открыть — запустить недостающее и восстановить макет · Исправить — только вернуть существующие окна"@[0]);
    } else if key == "empty_title"@ {
        reveal_strlit("empty_title");
        reveal_strlit("Пока нет рабочих окружений");
        assert("empty_title"@[0] != "Пока нет рабочих окружений"@[0]);
    } else if key == "empty_body"@ {
        reveal_strlit("empty_body");
        reveal_strlit("Расставь реальные окна как тебе удобно и нажми «Сохранить текущее». Workbench снимет открытые окна, приложения и раскладку.");
        assert("empty_body"@[0] != "Расставь реальные окна как тебе удобно и нажми «Сохранить текущее». Workbench снимет открытые окна, приложения и раскладку."@[0]);
    } else if key == "capture_title"@ {
        reveal_strlit("capture_title");
        reveal_strlit("Сохранить текущее окружение");
        assert("capture_title"@[0] != "Сохранить текущее окружение"@[0]);
    } else if key == "capture_intro"@ {
        reveal_strlit("capture_intro");
        reveal_strlit("Workbench снимет реальные окна этого workspace, их приложения, позиции и доступный контекст запуска. Проверь результат и сохрани.");
        assert("capture_intro"@[0] != "Workbench снимет реальные окна этого workspace, их приложения, позиции и доступный контекст запуска. Проверь результат и сохрани."@[0]);
    } else if key == "detected_windows"@ {
        reveal_strlit("detected_windows");
        reveal_strlit("Найденные окна");
        assert("detected_windows"@[0] != "Найденные окна"@[0]);
    } else if key == "workbench_details"@ {
        reveal_strlit("workbench_details");
        reveal_strlit("Параметры окружения");
        assert("workbench_details"@[0] != "Параметры окружения"@[0]);
    } else if key == "name"@ {
        reveal_strlit("name");
        reveal_strlit("Имя");
        assert("name"@[0] != "Имя"@[0]);
    } else if key == "workspace_name"@ {
        reveal_strlit("workspace_name");
        reveal_strlit("Workspace");
        assert("workspace_name"@[0] != "Workspace"@[0]);
    } else if key == "output"@ {
        reveal_strlit("output");
        reveal_strlit("Монитор");
        assert("output"@[0] != "Монитор"@[0]);
    } else if key == "auto"@ {
        reveal_strlit("auto");
        reveal_strlit("Авто");
        assert("auto"@[0] != "Авто"@[0]);
    } else if key == "launch_command"@ {
        reveal_strlit("launch_command");
        reveal_strlit("Команда запуска");
        assert("launch_command"@[0] != "Команда запуска"@[0]);
    } else if key == "reuse_only"@ {
        reveal_strlit("reuse_only");
        reveal_strlit("Только переиспользование");
        assert("reuse_only"@[0] != "Только переиспользование"@[0]);
    } else if key == "create_workbench"@ {
        reveal_strlit("create_workbench");
        reveal_strlit("Сохранить снимок");
        assert("create_workbench"@[0] != "Сохранить снимок"@[0]);
    } else if key == "cancel"@ {
        reveal_strlit("cancel");
        reveal_strlit("Отмена");
        assert("cancel"@[0] != "Отмена"@[0]);
    } else if key == "edit_workbench"@ {
        reveal_strlit("edit_workbench");
        reveal_strlit("Редактор окружения");
        assert("edit_workbench"@[0] != "Редактор окружения"@[0]);
    } else if key == "save"@ {
        reveal_strlit("save");
        reveal_strlit("Сохранить");
        assert("save"@[0] != "Сохранить"@[0]);
    } else if key == "preview"@ {
        reveal_strlit("preview");
        reveal_strlit("Предпросмотр");
        assert("preview"@[0] != "Предпросмотр"@[0]);
    } else if key == "layout"@ {
        reveal_strlit("layout");
        reveal_strlit("Макет");
        assert("layout"@[0] != "Макет"@[0]);
    } else if key == "windows"@ {
        reveal_strlit("windows");
        reveal_strlit("Окна");
        assert("windows"@[0] != "Окна"@[0]);
    } else if key == "selected_window"@ {
        reveal_strlit("selected_window");
        reveal_strlit("Выбранное окно");
        assert("selected_window"@[0] != "Выбранное окно"@[0]);
    } else if key == "logical_name"@ {
        reveal_strlit("logical_name");
        reveal_strlit("Имя окна");
        assert("logical_name"@[0] != "Имя окна"@[0]);
    } else if key == "column"@ {
        reveal_strlit("column");
        reveal_strlit("Колонка");
        assert("column"@[0] != "Колонка"@[0]);
    } else if key == "column_width"@ {
        reveal_strlit("column_width");
        reveal_strlit("Ширина колонки");
        assert("column_width"@[0] != "Ширина колонки"@[0]);
    } else if key == "window_height"@ {
        reveal_strlit("window_height");
        reveal_strlit("Высота окна");
        assert("window_height"@[0] != "Высота окна"@[0]);
    } else if key == "display_mode"@ {
        reveal_strlit("display_mode");
        reveal_strlit("Режим колонки");
        assert("display_mode"@[0] != "Режим колонки"@[0]);
    } else if key == "normal"@ {
        reveal_strlit("normal");
        reveal_strlit("Обычный");
        assert("normal"@[0] != "Обычный"@[0]);
    } else if key == "tabbed"@ {
        reveal_strlit("tabbed");
        reveal_strlit("Вкладки");
        assert("tabbed"@[0] != "Вкладки"@[0]);
    } else if key == "not_set"@ {
        reveal_strlit("not_set");
        reveal_strlit("Авто");
        assert("not_set"@[0] != "Авто"@[0]);
    } else if key == "final_focus"@ {
        reveal_strlit("final_focus");
        reveal_strlit("Фокус после открытия");
        assert("final_focus"@[0] != "Фокус после открытия"@[0]);
    } else if key == "match_app"@ {
        reveal_strlit("match_app");
        reveal_strlit("App ID");
        assert("match_app"@[0] != "App ID"@[0]);
    } else if key == "match_title"@ {
        reveal_strlit("match_title");
        reveal_strlit("Заголовок окна");
        assert("match_title"@[0] != "Заголовок окна"@[0]);
    } else if key == "advanced"@ {
        reveal_strlit("advanced");
        reveal_strlit("Дополнительно");
        assert("advanced"@[0] != "Дополнительно"@[0]);
    } else if key == "language"@ {
        reveal_strlit("language");
        reveal_strlit("Язык");
        assert("language"@[0] != "Язык"@[0]);
    } else if key == "language_help"@ {
        reveal_strlit("language_help");
        reveal_strlit("Язык интерфейса сохраняется отдельно от рецептов Workbench.");
        assert("language_help"@[0] != "Язык интерфейса сохраняется отдельно от рецептов Workbench."@[0]);
    } else if key == "appearance"@ {
        reveal_strlit("appearance");
        reveal_strlit("Интерфейс");
        assert("appearance"@[0] != "Интерфейс"@[0]);
    } else if key == "quick_launcher"@ {
        reveal_strlit("quick_launcher");
        reveal_strlit("Быстрый запуск");
        assert("quick_launcher"@[0] != "Быстрый запуск"@[0]);
    } else if key == "quick_hint"@ {
        reveal_strlit("quick_hint");
        reveal_strlit("Enter — открыть · Ctrl+Enter — исправить");
        assert("quick_hint"@[0] != "Enter — открыть · Ctrl+Enter — исправить"@[0]);
    } else if key == "capture_error"@ {
        reveal_strlit("capture_error");
        reveal_strlit("Не удалось прочитать текущий workspace");
        assert("capture_error"@[0] != "Не удалось прочитать текущий workspace"@[0]);
    } else if key == "saved"@ {
        reveal_strlit("saved");
        reveal_strlit("Сохранено");
        assert("saved"@[0] != "Сохранено"@[0]);
    } else if key == "opening"@ {
        reveal_strlit("opening");
        reveal_strlit("Открываю окружение…");
        assert("opening"@[0] != "Открываю окружение…"@[0]);
    } else if key == "repairing"@ {
        reveal_strlit("repairing");
        reveal_strlit("Восстанавливаю макет…");
        assert("repairing"@[0] != "Восстанавливаю макет…"@[0]);
    } else if key == "config_error"@ {
        reveal_strlit("config_error");
        reveal_strlit("Ошибка конфигурации");
        assert("config_error"@[0] != "Ошибка конфигурации"@[0]);
    } else if key == "refresh"@ {
        reveal_strlit("refresh");
        reveal_strlit("Обновить");
        assert("refresh"@[0] != "Обновить"@[0]);
    }
}

/// An English text is never the key that it stands for.
#[verifier::rlimit(60)]
proof fn english_texts_are_no_keys(key: Seq<char>)
    ensures
        i18n::english(key) != Some(key),
{
    if key == "home"@ {
        reveal_strlit("home");
        reveal_strlit("Home");
        assert("home"@[0] != "Home"@[0]);
    } else if key == "capture"@ {
        reveal_strlit("capture");
        reveal_strlit("Snapshot");
        assert("capture"@[0] != "Snapshot"@[0]);
    } else if key == "library"@ {
        reveal_strlit("library");
        reveal_strlit("Library");
        assert("library"@[0] != "Library"@[0]);
    } else if key == "settings"@ {
        reveal_strlit("settings");
        reveal_strlit("Settings");
        assert("settings"@[0] != "Settings"@[0]);
    } else if key == "new"@ {
        reveal_strlit("new");
        reveal_strlit("Save current");
        assert("new"@[0] != "Save current"@[0]);
    } else if key == "search"@ {
        reveal_strlit("search");
        reveal_strlit("Search workbenches…");
        assert("search"@[0] != "Search workbenches…"@[0]);
    } else if key == "open"@ {
        reveal_strlit("open");
        reveal_strlit("Open");
        assert("open"@[0] != "Open"@[0]);
    } else if key == "repair"@ {
        reveal_strlit("repair");
        reveal_strlit("Repair");
        assert("repair"@[0] != "Repair"@[0]);
    } else if key == "edit"@ {
        reveal_strlit("edit");
        reveal_strlit("Edit");
        assert("edit"@[0] != "Edit"@[0]);
    } else if key == "ready"@ {
        reveal_strlit("ready");
        reveal_strlit("Ready");
        assert("ready"@[0] != "Ready"@[0]);
    } else if key == "layout_changed"@ {
        reveal_strlit("layout_changed");
        reveal_strlit("Layout changed");
        assert("layout_changed"@[0] != "Layout changed"@[0]);
    } else if key == "offline"@ {
        reveal_strlit("offline");
        reveal_strlit("Niri unavailable");
        assert("offline"@[0] != "Niri unavailable"@[0]);
    } else if key == "missing_one"@ {
        reveal_strlit("missing_one");
        reveal_strlit("1 application missing");
        assert("missing_one"@[0] != "1 application missing"@[0]);
    } else if key == "missing_many"@ {
        reveal_strlit("missing_many");
        reveal_strlit("applications missing");
        assert("missing_many"@[0] != "applications missing"@[0]);
    } else if key == "ambiguous"@ {
        reveal_strlit("ambiguous");
        reveal_strlit("Matching needs attention");
        assert("ambiguous"@[0] != "Matching needs attention"@[0]);
    } else if key == "what_it_does"@ {
        reveal_strlit("what_it_does");
        reveal_strlit("What Workbench does");
        assert("what_it_does"@[0] != "What Workbench does"@[0]);
    } else if key == "what_it_does_body"@ {
        reveal_strlit("what_it_does_body");
        reveal_strlit("Save project workspaces, reopen them in one click, and repair layout drift without opening duplicates.");
        assert("what_it_does_body"@[0] != "Save project workspaces, reopen them in one click, and repair layout drift without opening duplicates."@[0]);
    } else if key == "open_hint"@ {
        reveal_strlit("open_hint");
        reveal_strlit("Open = launch missing apps and restore layout · Repair = move existing windows only");
        assert("open_hint"@[0] != "Open = launch missing apps and restore layout · Repair = move existing windows only"@[0]);
    } else if key == "empty_title"@ {
        reveal_strlit("empty_title");
        reveal_strlit("No workbenches yet");
        assert("empty_title"@[0] != "No workbenches yet"@[0]);
    } else if key == "empty_body"@ {
        reveal_strlit("empty_body");
        reveal_strlit("Arrange the real windows you want, then choose Save current. Workbench snapshots the open apps and their layout.");
        assert("empty_body"@[0] != "Arrange the real windows you want, then choose Save current. Workbench snapshots the open apps and their layout."@[0]);
    } else if key == "capture_title"@ {
        reveal_strlit("capture_title");
        reveal_strlit("Save current workspace");
        assert("capture_title"@[0] != "Save current workspace"@[0]);
    } else if key == "capture_intro"@ {
        reveal_strlit("capture_intro");
        reveal_strlit("Workbench snapshots the real windows on this workspace, their installed apps, positions, and available launch context. Review and save.");
        assert("capture_intro"@[0] != "Workbench snapshots the real windows on this workspace, their installed apps, positions, and available launch context. Review and save."@[0]);
    } else if key == "detected_windows"@ {
        reveal_strlit("detected_windows");
        reveal_strlit("Detected windows");
        assert("detected_windows"@[0] != "Detected windows"@[0]);
    } else if key == "workbench_details"@ {
        reveal_strlit("workbench_details");
        reveal_strlit("Workbench details");
        assert("workbench_details"@[0] != "Workbench details"@[0]);
    } else if key == "name"@ {
        reveal_strlit("name");
        reveal_strlit("Name");
        assert("name"@[0] != "Name"@[0]);
    } else if key == "workspace_name"@ {
        reveal_strlit("workspace_name");
        reveal_strlit("Workspace");
        assert("workspace_name"@[0] != "Workspace"@[0]);
    } else if key == "output"@ {
        reveal_strlit("output");
        reveal_strlit("Output");
        assert("output"@[0] != "Output"@[0]);
    } else if key == "auto"@ {
        reveal_strlit("auto");
        reveal_strlit("Auto");
        assert("auto"@[0] != "Auto"@[0]);
    } else if key == "launch_command"@ {
        reveal_strlit("launch_command");
        reveal_strlit("Launch command");
        assert("launch_command"@[0] != "Launch command"@[0]);
    } else if key == "reuse_only"@ {
        reveal_strlit("reuse_only");
        reveal_strlit("Reuse only");
        assert("reuse_only"@[0] != "Reuse only"@[0]);
    } else if key == "create_workbench"@ {
        reveal_strlit("create_workbench");
        reveal_strlit("Save snapshot");
        assert("create_workbench"@[0] != "Save snapshot"@[0]);
    } else if key == "cancel"@ {
        reveal_strlit("cancel");
        reveal_strlit("Cancel");
        assert("cancel"@[0] != "Cancel"@[0]);
    } else if key == "edit_workbench"@ {
        reveal_strlit("edit_workbench");
        reveal_strlit("Edit workbench");
        assert("edit_workbench"@[0] != "Edit workbench"@[0]);
    } else if key == "save"@ {
        reveal_strlit("save");
        reveal_strlit("Save");
        assert("save"@[0] != "Save"@[0]);
    } else if key == "preview"@ {
        reveal_strlit("preview");
        reveal_strlit("Preview");
        assert("preview"@[0] != "Preview"@[0]);
    } else if key == "layout"@ {
        reveal_strlit("layout");
        reveal_strlit("Layout");
        assert("layout"@[0] != "Layout"@[0]);
    } else if key == "windows"@ {
        reveal_strlit("windows");
        reveal_strlit("Windows");
        assert("windows"@[0] != "Windows"@[0]);
    } else if key == "selected_window"@ {
        reveal_strlit("selected_window");
        reveal_strlit("Selected window");
        assert("selected_window"@[0] != "Selected window"@[0]);
    } else if key == "logical_name"@ {
        reveal_strlit("logical_name");
        reveal_strlit("Window name");
        assert("logical_name"@[0] != "Window name"@[0]);
    } else if key == "column"@ {
        reveal_strlit("column");
        reveal_strlit("Column");
        assert("column"@[0] != "Column"@[0]);
    } else if key == "column_width"@ {
        reveal_strlit("column_width");
        reveal_strlit("Column width");
        assert("column_width"@[0] != "Column width"@[0]);
    } else if key == "window_height"@ {
        reveal_strlit("window_height");
        reveal_strlit("Window height");
        assert("window_height"@[0] != "Window height"@[0]);
    } else if key == "display_mode"@ {
        reveal_strlit("display_mode");
        reveal_strlit("Column mode");
        assert("display_mode"@[0] != "Column mode"@[0]);
    } else if key == "normal"@ {
        reveal_strlit("normal");
        reveal_strlit("Normal");
        assert("normal"@[0] != "Normal"@[0]);
    } else if key == "tabbed"@ {
        reveal_strlit("tabbed");
        reveal_strlit("Tabbed");
        assert("tabbed"@[0] != "Tabbed"@[0]);
    } else if key == "not_set"@ {
        reveal_strlit("not_set");
        reveal_strlit("Auto");
        assert("not_set"@[0] != "Auto"@[0]);
    } else if key == "final_focus"@ {
        reveal_strlit("final_focus");
        reveal_strlit("Focus after opening");
        assert("final_focus"@[0] != "Focus after opening"@[0]);
    } else if key == "match_app"@ {
        reveal_strlit("match_app");
        reveal_strlit("App ID");
        assert("match_app"@[0] != "App ID"@[0]);
    } else if key == "match_title"@ {
        reveal_strlit("match_title");
        reveal_strlit("Window title");
        assert("match_title"@[0] != "Window title"@[0]);
    } else if key == "advanced"@ {
        reveal_strlit("advanced");
        reveal_strlit("Advanced");
        assert("advanced"@[0] != "Advanced"@[0]);
    } else if key == "language"@ {
        reveal_strlit("language");
        reveal_strlit("Language");
        assert("language"@[0] != "Language"@[0]);
    } else if key == "language_help"@ {
        reveal_strlit("language_help");
        reveal_strlit("Interface language is stored separately from Workbench recipes.");
        assert("language_help"@[0] != "Interface language is stored separately from Workbench recipes."@[0]);
    } else if key == "appearance"@ {
        reveal_strlit("appearance");
        reveal_strlit("Interface");
        assert("appearance"@[0] != "Interface"@[0]);
    } else if key == "quick_launcher"@ {
        reveal_strlit("quick_launcher");
        reveal_strlit("Quick launcher");
        assert("quick_launcher"@[0] != "Quick launcher"@[0]);
    } else if key == "quick_hint"@ {
        reveal_strlit("quick_hint");
        reveal_strlit("Enter = open · Ctrl+Enter = repair");
        assert("quick_hint"@[0] != "Enter = open · Ctrl+Enter = repair"@[0]);
    } else if key == "capture_error"@ {
        reveal_strlit("capture_error");
        reveal_strlit("Could not inspect the current workspace");
        assert("capture_error"@[0] != "Could not inspect the current workspace"@[0]);
    } else if key == "saved"@ {
        reveal_strlit("saved");
        reveal_strlit("Saved");
        assert("saved"@[0] != "Saved"@[0]);
    } else if key == "opening"@ {
        reveal_strlit("opening");
        reveal_strlit("Opening workbench…");
        assert("opening"@[0] != "Opening workbench…"@[0]);
    } else if key == "repairing"@ {
        reveal_strlit("repairing");
        reveal_strlit("Repairing layout…");
        assert("repairing"@[0] != "Repairing layout…"@[0]);
    } else if key == "config_error"@ {
        reveal_strlit("config_error");
        reveal_strlit("Configuration error");
        assert("config_error"@[0] != "Configuration error"@[0]);
    } else if key == "refresh"@ {
        reveal_strlit("refresh");
        reveal_strlit("Refresh");
        assert("refresh"@[0] != "Refresh"@[0]);
    }
}

} // verus!
